//! The arguments of the two commands, and what each prints when it is up.

use std::path::PathBuf;

use vstd::prelude::*;

use crate::state::{DEMO_PASSWORD, DEMO_USER};
use crate::text::decimal_text;

verus! {

/// The variable that names the data directory where the command line does not.
pub const DATA_DIR_ENV: &'static str = "ARTI_WEB_POC_DATA_DIR";

/// The data directory that is used where none is named.
pub const DEFAULT_DATA_DIR: &'static str = "arti-web-poc-data";

/// The directory in the data directory that holds the Tor state and the identity key.
pub const STATE_DIR: &'static str = "state";

/// The directory in the data directory that holds what can be fetched again.
pub const CACHE_DIR: &'static str = "cache";

/// The permissions of these directories: the key in them is for the owner alone.
pub const PRIVATE_DIR_MODE: u32 = 0o700;

/// The nickname that is used where none is given.
pub const DEFAULT_NICKNAME: &'static str = "arti-web-poc";

/// The local port that is used where none is given.
pub const DEFAULT_LOCAL_PORT: u16 = 8080;

/// The port of the onion service that is used where none is given.
pub const DEFAULT_VIRTUAL_PORT: u16 = 80;

/// The only address that the tunnel listens on.
pub const LOOPBACK: &'static str = "127.0.0.1";

/// The line above and below what is printed.
pub const RULE: &'static str =
    "========================================================================\n";

/// `PathBuf` of std, which is only carried. Nothing is claimed of it.
#[verifier::external_type_specification]
#[verifier::external_body]
pub struct ExPathBuf(PathBuf);

/// The arguments of the command that runs the onion service.
#[derive(Debug)]
pub struct ServeArgs {
    /// Directory for persistent Tor state and the onion identity key.
    pub data_dir: PathBuf,
    /// Nickname of the onion service, which is its namespace in the keystore. Another nickname
    /// makes another address.
    pub nickname: String,
}

/// The arguments of the command that forwards a remote onion service to a local port.
#[derive(Debug)]
pub struct TunnelArgs {
    /// Onion address to forward to.
    pub onion: String,
    /// Local TCP port to listen on.
    pub local_port: u16,
    /// Port of the onion service to connect to.
    pub virtual_port: u16,
}

/// What the service prints once it can be reached at `onion`.
pub open spec fn serve_banner_text(onion: Seq<char>) -> Seq<char> {
    "\n"@ + RULE@
        + "  Auth-gated onion service is live (persistent — same address on restart).\n"@
        + "  Open in Tor Browser:\n    http://"@ + onion + "\n\n  Demo login:  username = "@
        + DEMO_USER@ + "   password = "@ + DEMO_PASSWORD@
        + "\n  (first load may take 10-30s while the descriptor publishes)\n"@ + RULE@ + "\n"@
}

/// Writes what the service prints once it can be reached at `onion`.
pub fn serve_banner(onion: &str) -> (r: String)
    ensures
        r@ == serve_banner_text(onion@),
{
    let mut out = "\n".to_owned();
    out.append(RULE);
    out.append("  Auth-gated onion service is live (persistent — same address on restart).\n");
    out.append("  Open in Tor Browser:\n    http://");
    out.append(onion);
    out.append("\n\n  Demo login:  username = ");
    out.append(DEMO_USER);
    out.append("   password = ");
    out.append(DEMO_PASSWORD);
    out.append("\n  (first load may take 10-30s while the descriptor publishes)\n");
    out.append(RULE);
    out.append("\n");
    out
}

impl TunnelArgs {
    /// The URL under which the tunnel can be reached.
    pub open spec fn local_url(self) -> Seq<char> {
        "http://"@ + LOOPBACK@ + ":"@ + crate::text::decimal(self.local_port as nat)
    }

    /// What the tunnel prints once it is up.
    pub open spec fn banner_text(self) -> Seq<char> {
        "\n"@ + RULE@ + "  Tunnel up. Forwarding:\n    "@ + self.local_url() + "  ->  "@
            + self.onion@ + ":"@ + crate::text::decimal(self.virtual_port as nat)
            + "  (via Tor)\n  Try:  curl "@ + self.local_url() + "/login\n"@ + RULE@ + "\n"@
    }

    /// Writes the URL under which the tunnel can be reached.
    pub fn url(&self) -> (r: String)
        ensures
            r@ == self.local_url(),
    {
        let mut out = "http://".to_owned();
        out.append(LOOPBACK);
        out.append(":");
        let port = decimal_text(self.local_port as usize);
        out.append(port.as_str());
        out
    }

    /// Writes what the tunnel prints once it is up.
    pub fn banner(&self) -> (r: String)
        ensures
            r@ == self.banner_text(),
    {
        let url = self.url();
        let port = decimal_text(self.virtual_port as usize);
        let mut out = "\n".to_owned();
        out.append(RULE);
        out.append("  Tunnel up. Forwarding:\n    ");
        out.append(url.as_str());
        out.append("  ->  ");
        out.append(self.onion.as_str());
        out.append(":");
        out.append(port.as_str());
        out.append("  (via Tor)\n  Try:  curl ");
        out.append(url.as_str());
        out.append("/login\n");
        out.append(RULE);
        out.append("\n");
        out
    }
}

/// The service prints the address that it can be reached at, as a URL on a line of its own, and
/// the credentials of the demo user; nothing else of it depends on the address.
pub proof fn serve_banner_shows_the_address(onion: Seq<char>)
    ensures
        serve_banner_text(onion)
            == "\n========================================================================\n  Auth-gated onion service is live (persistent — same address on restart).\n  Open in Tor Browser:\n    http://"@
            + onion
            + "\n\n  Demo login:  username = agent   password = tor-rocks\n  (first load may take 10-30s while the descriptor publishes)\n========================================================================\n\n"@,
{
    reveal_strlit("\n");
    reveal_strlit("========================================================================\n");
    reveal_strlit("  Auth-gated onion service is live (persistent — same address on restart).\n");
    reveal_strlit("  Open in Tor Browser:\n    http://");
    reveal_strlit("\n\n  Demo login:  username = ");
    reveal_strlit("agent");
    reveal_strlit("   password = ");
    reveal_strlit("tor-rocks");
    reveal_strlit("\n  (first load may take 10-30s while the descriptor publishes)\n");
    reveal_strlit("\n========================================================================\n  Auth-gated onion service is live (persistent — same address on restart).\n  Open in Tor Browser:\n    http://");
    reveal_strlit("\n\n  Demo login:  username = agent   password = tor-rocks\n  (first load may take 10-30s while the descriptor publishes)\n========================================================================\n\n");
    let head = "\n"@ + RULE@
        + "  Auth-gated onion service is live (persistent — same address on restart).\n"@
        + "  Open in Tor Browser:\n    http://"@;
    let tail = "\n\n  Demo login:  username = "@ + DEMO_USER@ + "   password = "@ + DEMO_PASSWORD@
        + "\n  (first load may take 10-30s while the descriptor publishes)\n"@ + RULE@ + "\n"@;
    assert(head
        =~= "\n========================================================================\n  Auth-gated onion service is live (persistent — same address on restart).\n  Open in Tor Browser:\n    http://"@);
    assert(tail
        =~= "\n\n  Demo login:  username = agent   password = tor-rocks\n  (first load may take 10-30s while the descriptor publishes)\n========================================================================\n\n"@);
    assert(serve_banner_text(onion) =~= head + onion + tail);
}

/// The URL of the tunnel is on the loopback address, with the local port in decimal.
pub proof fn tunnel_is_reached_on_loopback(args: TunnelArgs)
    ensures
        exists|port: Seq<char>|
            #[trigger] crate::text_laws::reads_as(port, args.local_port as nat)
                && args.local_url() == "http://127.0.0.1:"@ + port,
{
    reveal_strlit("http://");
    reveal_strlit("127.0.0.1");
    reveal_strlit(":");
    reveal_strlit("http://127.0.0.1:");
    crate::text_laws::decimal_reads_back(args.local_port as nat);
    let port = crate::text::decimal(args.local_port as nat);
    assert(args.local_url() =~= "http://127.0.0.1:"@ + port);
}

/// The tunnel prints from where to where it forwards, with both ports in decimal, and how to try
/// it.
pub proof fn tunnel_banner_shows_both_ends(args: TunnelArgs)
    ensures
        exists|port: Seq<char>|
            #[trigger] crate::text_laws::reads_as(port, args.virtual_port as nat)
                && args.banner_text()
                == "\n========================================================================\n  Tunnel up. Forwarding:\n    "@
                + args.local_url() + "  ->  "@ + args.onion@ + ":"@ + port
                + "  (via Tor)\n  Try:  curl "@ + args.local_url()
                + "/login\n========================================================================\n\n"@,
{
    reveal_strlit("\n");
    reveal_strlit("========================================================================\n");
    reveal_strlit("  Tunnel up. Forwarding:\n    ");
    reveal_strlit("/login\n");
    reveal_strlit("\n========================================================================\n  Tunnel up. Forwarding:\n    ");
    reveal_strlit("/login\n========================================================================\n\n");
    crate::text_laws::decimal_reads_back(args.virtual_port as nat);
    let port = crate::text::decimal(args.virtual_port as nat);
    let head = "\n"@ + RULE@ + "  Tunnel up. Forwarding:\n    "@;
    let middle = args.local_url() + "  ->  "@ + args.onion@ + ":"@ + port
        + "  (via Tor)\n  Try:  curl "@ + args.local_url();
    let tail = "/login\n"@ + RULE@ + "\n"@;
    assert(head
        =~= "\n========================================================================\n  Tunnel up. Forwarding:\n    "@);
    assert(tail
        =~= "/login\n========================================================================\n\n"@);
    assert(args.banner_text() =~= head + middle + tail);
    assert(head + middle + tail =~= head + args.local_url() + "  ->  "@ + args.onion@ + ":"@ + port
        + "  (via Tor)\n  Try:  curl "@ + args.local_url() + tail);
}

} // verus!
