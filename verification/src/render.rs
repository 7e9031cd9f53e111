//! Pure template rendering: the web-server virtual-host block for one route
//! and the ACME issuance block for one domain. Consumers parse these files,
//! so each function's contract pins the output down to the exact characters.

use vstd::prelude::*;

verus! {

/// The auth directives inserted into `location /` when a route is gated by a
/// login group.
pub open spec fn spec_auth_directives(login_file: Seq<char>) -> Seq<char> {
    ("auth_basic \"login\";\n        auth_basic_user_file ")@ + login_file + (";\n        ")@
}

/// The rendered virtual-host block: a port-80 redirect stanza and a port-443
/// TLS stanza proxying to the target, with the auth directives present
/// exactly when a login file is given.
pub open spec fn spec_vhost(from: Seq<char>, to: Seq<char>, auth: Option<Seq<char>>) -> Seq<
    char,
> {
    ("server {\n    listen 80;\n    listen [::]:80;\n    server_name ")@ + from + (
    ";\n\n    location / {\n        return 301 https://")@ + from + (
    "$request_uri;\n    }\n}\n\nserver {\n    listen 443 ssl;\n    listen [::]:443 ssl;\n    server_name ")@
        + from + (";\n\n    ssl_certificate /var/lib/acme-redirect/live/")@ + from + (
    "/fullchain;\n    ssl_certificate_key /var/lib/acme-redirect/live/")@ + from + (
    "/privkey;\n    ssl_trusted_certificate /var/lib/acme-redirect/live/")@ + from + (
    "/chain;\n\n    ssl_protocols TLSv1.2 TLSv1.3;\n    ssl_ciphers ECDHE-ECDSA-AES128-GCM-SHA256:ECDHE-RSA-AES128-GCM-SHA256:ECDHE-ECDSA-AES256-GCM-SHA384:ECDHE-RSA-AES256-GCM-SHA384:ECDHE-ECDSA-CHACHA20-POLY1305:ECDHE-RSA-CHACHA20-POLY1305:DHE-RSA-AES128-GCM-SHA256:DHE-RSA-AES256-GCM-SHA384;\n    ssl_prefer_server_ciphers off;\n\n    add_header Strict-Transport-Security \"max-age=63072000\" always;\n\n    ssl_stapling on;\n    ssl_stapling_verify on;\n    resolver 127.0.0.1;\n\n    location / {\n        ")@
        + (match auth {
        Some(f) => spec_auth_directives(f),
        None => Seq::<char>::empty(),
    }) + ("proxy_pass ")@ + to + (
    ";\n        proxy_set_header Host $host;\n        proxy_set_header X-Real-IP $remote_addr;\n        proxy_set_header X-Forwarded-For $proxy_add_x_forwarded_for;\n        proxy_set_header X-Forwarded-Proto $scheme;\n    }\n}\n")@
}

/// The rendered ACME block: a certificate whose name and sole DNS name are
/// the namespace, with one post-issuance hook reloading the web server.
pub open spec fn spec_acme_conf(namespace: Seq<char>) -> Seq<char> {
    ("[cert]\nname = \"")@ + namespace + ("\"\ndns_names = [\"")@ + namespace + (
    "\"]\nexec = [\"systemctl reload nginx\"]\n")@
}

/// Renders the virtual-host block for one route.
pub fn nginx_proxy_build(from: &str, to: &str, login_group_path: Option<String>) -> (r:
    String)
    ensures
        r@ == spec_vhost(
            from@,
            to@,
            match login_group_path {
                Some(p) => Some(p@),
                None => None,
            },
        ),
{
    let mut r = String::new();
    r.append("server {\n    listen 80;\n    listen [::]:80;\n    server_name ");
    r.append(from);
    r.append(";\n\n    location / {\n        return 301 https://");
    r.append(from);
    r.append(
        "$request_uri;\n    }\n}\n\nserver {\n    listen 443 ssl;\n    listen [::]:443 ssl;\n    server_name ",
    );
    r.append(from);
    r.append(";\n\n    ssl_certificate /var/lib/acme-redirect/live/");
    r.append(from);
    r.append("/fullchain;\n    ssl_certificate_key /var/lib/acme-redirect/live/");
    r.append(from);
    r.append("/privkey;\n    ssl_trusted_certificate /var/lib/acme-redirect/live/");
    r.append(from);
    r.append(
        "/chain;\n\n    ssl_protocols TLSv1.2 TLSv1.3;\n    ssl_ciphers ECDHE-ECDSA-AES128-GCM-SHA256:ECDHE-RSA-AES128-GCM-SHA256:ECDHE-ECDSA-AES256-GCM-SHA384:ECDHE-RSA-AES256-GCM-SHA384:ECDHE-ECDSA-CHACHA20-POLY1305:ECDHE-RSA-CHACHA20-POLY1305:DHE-RSA-AES128-GCM-SHA256:DHE-RSA-AES256-GCM-SHA384;\n    ssl_prefer_server_ciphers off;\n\n    add_header Strict-Transport-Security \"max-age=63072000\" always;\n\n    ssl_stapling on;\n    ssl_stapling_verify on;\n    resolver 127.0.0.1;\n\n    location / {\n        ",
    );
    match &login_group_path {
        Some(p) => {
            r.append("auth_basic \"login\";\n        auth_basic_user_file ");
            r.append(p.as_str());
            r.append(";\n        ");
        },
        None => {},
    }
    r.append("proxy_pass ");
    r.append(to);
    r.append(
        ";\n        proxy_set_header Host $host;\n        proxy_set_header X-Real-IP $remote_addr;\n        proxy_set_header X-Forwarded-For $proxy_add_x_forwarded_for;\n        proxy_set_header X-Forwarded-Proto $scheme;\n    }\n}\n",
    );
    proof {
        assert(r@ =~= spec_vhost(
            from@,
            to@,
            match login_group_path {
                Some(p) => Some(p@),
                None => None,
            },
        ));
    }
    r
}

/// Renders the ACME issuance block for one domain.
pub fn acme_redirect_config_build(namespace: &str) -> (r: String)
    ensures
        r@ == spec_acme_conf(namespace@),
{
    let mut r = String::new();
    r.append("[cert]\nname = \"");
    r.append(namespace);
    r.append("\"\ndns_names = [\"");
    r.append(namespace);
    r.append("\"]\nexec = [\"systemctl reload nginx\"]\n");
    proof {
        assert(r@ =~= spec_acme_conf(namespace@));
    }
    r
}

} // verus!
