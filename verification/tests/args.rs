use std::path::PathBuf;

use arti_web_poc::args::{
    serve_banner, ServeArgs, TunnelArgs, CACHE_DIR, DATA_DIR_ENV, DEFAULT_DATA_DIR,
    DEFAULT_LOCAL_PORT, DEFAULT_NICKNAME, DEFAULT_VIRTUAL_PORT, LOOPBACK, PRIVATE_DIR_MODE,
    STATE_DIR,
};

#[test]
fn documented_defaults() {
    assert_eq!(DATA_DIR_ENV, "ARTI_WEB_POC_DATA_DIR");
    let args = ServeArgs {
        data_dir: PathBuf::from(DEFAULT_DATA_DIR),
        nickname: DEFAULT_NICKNAME.to_string(),
    };
    assert_eq!(args.data_dir, PathBuf::from("arti-web-poc-data"));
    assert_eq!(args.nickname, "arti-web-poc");
    assert_eq!((DEFAULT_LOCAL_PORT, DEFAULT_VIRTUAL_PORT), (8080, 80));
    assert_eq!(LOOPBACK, "127.0.0.1");
    assert_eq!((STATE_DIR, CACHE_DIR, PRIVATE_DIR_MODE), ("state", "cache", 0o700));
}

#[test]
fn tunnel_banner() {
    let args = TunnelArgs {
        onion: "abc.onion".to_string(),
        local_port: 9000,
        virtual_port: 80,
    };
    let rule = "=".repeat(72);
    assert_eq!(args.url(), "http://127.0.0.1:9000");
    assert_eq!(
        args.banner(),
        format!(
            "\n{rule}\n  Tunnel up. Forwarding:\n    http://127.0.0.1:9000  ->  abc.onion:80  (via Tor)\n  Try:  curl http://127.0.0.1:9000/login\n{rule}\n\n"
        )
    );
}

#[test]
fn service_banner() {
    let rule = "=".repeat(72);
    assert_eq!(
        serve_banner("abc.onion"),
        format!(
            "\n{rule}\n  Auth-gated onion service is live (persistent — same address on restart).\n  Open in Tor Browser:\n    http://abc.onion\n\n  Demo login:  username = agent   password = tor-rocks\n  (first load may take 10-30s while the descriptor publishes)\n{rule}\n\n"
        )
    );
}
