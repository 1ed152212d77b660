use hyperhost::nginx::import::convert_prod_to_dev;

#[test]
fn simple_proxy_block() {
    let input = r#"
server {
    server_name hivemind.bug.edu.vn;
    location / {
        proxy_pass http://localhost:4210;
        proxy_set_header Host $host;
    }
    listen 443 ssl;
    ssl_certificate /etc/letsencrypt/live/x/fullchain.pem;
}
"#;
    let r = convert_prod_to_dev(input).unwrap();
    assert_eq!(r.server_name.as_deref(), Some("hivemind.bug.edu.vn"));
    assert_eq!(r.suggested_upstream.as_deref(), Some("http://127.0.0.1:4210"));
    assert!(r.advanced_config.contains("proxy_pass $UPSTREAM;"));
    assert!(!r.advanced_config.contains("letsencrypt"));
    assert!(!r.advanced_config.contains("listen 443 ssl;\n    listen"));
}

#[test]
fn upstream_reference_resolves_port() {
    let input = r#"
upstream backend_api {
    server 127.0.0.1:3000;
}
server {
    server_name messages-api.bug.edu.vn;
    location /ws {
        proxy_pass http://backend_api;
    }
    location / {
        proxy_pass http://backend_api;
    }
    listen 443 ssl;
    ssl_certificate /x;
}
"#;
    let r = convert_prod_to_dev(input).unwrap();
    assert_eq!(r.suggested_upstream.as_deref(), Some("http://127.0.0.1:3000"));
    assert!(r.advanced_config.contains("proxy_pass $UPSTREAM;"));
}
