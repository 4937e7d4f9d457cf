use build_bridge::bridge::{
    build_index_html, content_type_for, escape_html, generate_token, get_arg_value,
    parse_agent_args, parse_port, route_request, sanitize_segment, split_url, unique_destination,
    ArtifactItem, Route,
};
use build_bridge::qr::build_qr_image;
use build_bridge::terminal::{is_terminal_link, parse_ansi_line, push_tokens, Rgb, Style, TerminalToken};
use build_bridge::timestamps::{build_time_label, format_build_timestamp};

fn args(v: &[&str]) -> Vec<String> {
    v.iter().map(|s| s.to_string()).collect()
}

fn texts(t: &[TerminalToken]) -> Vec<&str> {
    t.iter().map(|x| x.text.as_str()).collect()
}

const PLAIN: Rgb = Rgb { r: 210, g: 210, b: 210 };

#[test]
fn arguments_are_read() {
    let a = args(&["agent", "--projects", "/p.json", "--project", "App", "--port", "+81", "--project", "Other"]);
    assert_eq!(get_arg_value(&a, "--project"), Some("App".to_string()));
    assert_eq!(get_arg_value(&a, "--bind"), None);
    assert_eq!(get_arg_value(&args(&["--port"]), "--port"), None);
    let parsed = parse_agent_args(&a);
    assert_eq!(parsed.projects_path, "/p.json");
    assert_eq!(parsed.project_name, "App");
    assert_eq!(parsed.port, 81);
    assert_eq!(parsed.bind, "0.0.0.0");
    assert_eq!(parsed.host, "0.0.0.0");
    let b = parse_agent_args(&args(&["--port", "70000", "--bind", "127.0.0.1"]));
    assert_eq!((b.port, b.bind.as_str(), b.host.as_str(), b.project_name.as_str()), (8080, "127.0.0.1", "127.0.0.1", ""));
    let c = parse_agent_args(&args(&["--host", "192.168.1.4", "--port", "x1"]));
    assert_eq!((c.port, c.host.as_str()), (8080, "192.168.1.4"));
}

#[test]
fn ports_parse_like_u16() {
    for s in ["0", "65535", "65536", "+", "", "-1", "007", "+4000", "12a", "99999999999"] {
        assert_eq!(parse_port(s), s.parse::<u16>().ok(), "{s}");
    }
}

#[test]
fn served_names_are_safe() {
    assert_eq!(sanitize_segment("My App (v2).apk"), "My_App__v2_.apk");
    assert_eq!(sanitize_segment("ünï/../x"), "_n__.._x");
    assert_eq!(sanitize_segment(&sanitize_segment("a b")), "a_b");
}

#[test]
fn html_is_escaped() {
    assert_eq!(escape_html("a<b>&\"c\"'"), "a&lt;b&gt;&amp;&quot;c&quot;'");
    assert_eq!(escape_html("&lt;"), "&amp;lt;");
    assert!(!escape_html("<script>").contains('<'));
}

#[test]
fn urls_and_routes() {
    assert_eq!(split_url("/files/a.apk?x=1?y"), "/files/a.apk");
    assert_eq!(split_url("/"), "/");
    assert!(matches!(route_request(true, "/files/x"), Route::Preflight));
    assert!(matches!(route_request(false, "/?t=abc"), Route::Index));
    match route_request(false, "/files/app.apk?dl=1") {
        Route::File { name } => assert_eq!(name, "app.apk"),
        _ => panic!("expected a file"),
    }
    assert!(matches!(route_request(false, "/favicon.ico"), Route::NotFound));
    assert_eq!(content_type_for("app.apk"), "application/vnd.android.package-archive");
    assert_eq!(content_type_for("app.APK"), "application/octet-stream");
    assert_eq!(content_type_for("notes"), "application/octet-stream");
}

#[test]
fn download_page() {
    let empty = build_index_html("A&B", &vec![]);
    assert!(empty.starts_with("<!doctype html><html><head><meta charset=\"utf-8\"><title>BuildBridge Serve</title>"));
    assert!(empty.ends_with("<h2>A&amp;B</h2><p>No artifacts available.</p></div></body></html>"));
    let items = vec![
        ArtifactItem { label: "a<1>.apk".into(), file_name: "a_1_.apk".into(), size: 1024 },
        ArtifactItem { label: "b.apk".into(), file_name: "b-1.apk".into(), size: 0 },
    ];
    let page = build_index_html("App", &items);
    assert!(page.ends_with("<h2>App</h2><div><div class=\"item\"><a href=\"files/a_1_.apk\" download>a&lt;1&gt;.apk</a><br><small>Size: 1024 bytes</small></div><div class=\"item\"><a href=\"files/b-1.apk\" download>b.apk</a><br><small>Size: 0 bytes</small></div></div></div></body></html>"));
}

#[test]
fn destinations_do_not_clash() {
    assert_eq!(unique_destination("app.apk", &vec![]), "app.apk");
    assert_eq!(unique_destination("app.apk", &args(&["app.apk", "app-1.apk"])), "app-2.apk");
    assert_eq!(unique_destination("README", &args(&["README"])), "README-1");
    let all: Vec<String> = std::iter::once("x.bin".to_string()).chain((1..1000).map(|i| format!("x-{i}.bin"))).collect();
    assert_eq!(unique_destination("x.bin", &all), "x-999.bin");
}

#[test]
fn tokens_are_hex() {
    assert_eq!(generate_token(255, 16), "ff10");
    assert_eq!(generate_token(0, 0), "00");
    assert_eq!(generate_token(1_700_000_000, 123_456_789), format!("{:x}{:x}", 1_700_000_000u64, 123_456_789u32));
}

#[test]
fn terminal_lines_are_tokenized() {
    let t = parse_ansi_line("\x1b[1;32mOK\x1b[0m see http://127.0.0.1:4000/");
    assert_eq!(texts(&t), vec!["OK", " ", "see", " ", "http://127.0.0.1:4000/"]);
    assert_eq!((t[0].color, t[0].bold, t[0].is_link), (Rgb { r: 80, g: 250, b: 123 }, true, false));
    assert_eq!((t[1].color, t[1].bold), (PLAIN, false));
    assert_eq!((t[4].color, t[4].bold, t[4].is_link), (Rgb { r: 66, g: 133, b: 244 }, true, true));
    let u = parse_ansi_line("a\x1b[12xb");
    assert_eq!(texts(&u), vec!["a", "\x1b[xb"]);
    let v = parse_ansi_line("\x1b[91mE\x1b[90m;\x1b[94;33mW\x1b[7m.");
    assert_eq!(v.iter().map(|x| x.color).collect::<Vec<_>>(), vec![
        Rgb { r: 255, g: 85, b: 85 }, Rgb { r: 120, g: 120, b: 120 }, Rgb { r: 241, g: 250, b: 140 }, Rgb { r: 241, g: 250, b: 140 },
    ]);
    assert!(parse_ansi_line("").is_empty());
    assert!(parse_ansi_line("\x1b[0m").is_empty());
    assert_eq!(texts(&parse_ansi_line("é\u{a0}x")), vec!["\u{c3}\u{a9}\u{c2}", "\u{a0}", "x"]);
}

#[test]
fn words_and_links() {
    assert!(is_terminal_link("https://example.com"));
    assert!(is_terminal_link("http://"));
    assert!(!is_terminal_link("ftp://x"));
    let mut out = Vec::new();
    push_tokens(&mut out, "  a\tb ", Style { color: PLAIN, bold: false });
    assert_eq!(texts(&out), vec![" ", " ", "a", "\t", "b", " "]);
}

#[test]
fn qr_bitmap_has_border_and_modules() {
    let b = build_qr_image("http://192.168.1.4:4000/", 4, 10);
    assert_eq!(b.size, 25 * 4 + 20);
    assert_eq!(b.dark.len(), b.size * b.size);
    assert!(!b.dark[0] && !b.dark[b.size * b.size - 1]);
    assert!(b.dark[10 * b.size + 10]);
    assert!(b.dark.iter().any(|d| !d));
    let code = qrcode::QrCode::new(b"http://192.168.1.4:4000/").unwrap();
    let colors = code.to_colors();
    for y in 0..code.width() {
        for x in 0..code.width() {
            let px = 10 + x * 4 + 3;
            let py = 10 + y * 4 + 1;
            assert_eq!(b.dark[py * b.size + px], colors[y * code.width() + x] == qrcode::Color::Dark);
        }
    }
    let big = "x".repeat(8000);
    let fail = build_qr_image(&big, 4, 10);
    assert_eq!((fail.size, fail.dark.clone()), (1, vec![true]));
}

#[test]
fn build_times_are_labelled() {
    assert_eq!(format_build_timestamp(Some("2024-03-05 14:07")), "05-03-2024 | 02:07 pm");
    assert_eq!(format_build_timestamp(Some("2024-03-05 00:30")), "05-03-2024 | 12:30 am");
    assert_eq!(format_build_timestamp(Some("yesterday")), "Unknown time");
    assert_eq!(format_build_timestamp(None), "Unknown time");
    assert_eq!(build_time_label(Some("01-01-2020 | 01:00 PM")), "01-01-2020 | 01:00 pm");
}
