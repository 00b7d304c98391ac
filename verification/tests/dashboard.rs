
use observatory::dashboard::{
    dot, html_escape_log, render_dashboard, render_log_page, status_pip, strip_ansi, PortTable,
    ServiceView, DOT_DEGRADED, DOT_RUNNING, DOT_STOPPED,
};
use observatory::db::{CheckRow, ServiceSnapshot};

fn check(status: &str, ms: Option<i64>, at: &str) -> CheckRow {
    CheckRow { status: status.to_string(), response_ms: ms, checked_at: at.to_string() }
}

fn snapshot(name: &str, status: &str, at: &str, repo: Option<&str>) -> ServiceSnapshot {
    ServiceSnapshot {
        service: name.to_string(),
        last_status: status.to_string(),
        last_checked: at.to_string(),
        repo_url: repo.map(|r| r.to_string()),
    }
}

#[test]
fn strip_ansi_removes_color_codes() {
    assert_eq!(strip_ansi("\x1b[31mred\x1b[0m plain"), "red plain");
}

#[test]
fn strip_ansi_drops_lone_escape() {
    assert_eq!(strip_ansi("a\x1bb"), "ab");
    assert_eq!(strip_ansi("a\x1b"), "a");
}

#[test]
fn strip_ansi_escape_then_sequence() {
    assert_eq!(strip_ansi("a\x1b\x1b[1mb"), "ab");
}

#[test]
fn strip_ansi_unterminated_sequence_runs_to_end() {
    assert_eq!(strip_ansi("x\x1b[12;34"), "x");
}

#[test]
fn strip_ansi_final_byte_range() {
    // `?` (0x3f) is not a final byte, `@` (0x40) and `~` (0x7e) are
    assert_eq!(strip_ansi("\x1b[?25hA"), "A");
    assert_eq!(strip_ansi("\x1b[@B"), "B");
    assert_eq!(strip_ansi("\x1b[~C"), "C");
    assert_eq!(strip_ansi("\x1b[\x7fD"), "");
}

#[test]
fn strip_ansi_plain_text_unchanged() {
    let s = "no escapes here: <>&\u{2192}";
    assert_eq!(strip_ansi(s), s);
}

#[test]
fn strip_ansi_is_idempotent() {
    let s = "\x1b[1mbold\x1b[0m \x1b x \x1b[";
    let once = strip_ansi(s);
    assert_eq!(strip_ansi(&once), once);
    assert!(!once.contains('\x1b'));
}

#[test]
fn html_escape_log_escapes_entities() {
    assert_eq!(html_escape_log("<b>&</b>"), "&lt;b&gt;&amp;&lt;/b&gt;");
}

#[test]
fn html_escape_log_strips_then_escapes() {
    assert_eq!(html_escape_log("\x1b[32mok\x1b[0m a<b"), "ok a&lt;b");
}

#[test]
fn html_escape_log_leaves_no_tags() {
    let out = html_escape_log("<script>\x1b[31m</script> > < &amp;");
    assert!(!out.contains('<'));
    assert!(!out.contains('>'));
    assert!(!out.contains('\x1b'));
}

#[test]
fn render_log_page_matches_template() {
    let page = render_log_page("txtme", "line <1>\n\x1b[31merr\x1b[0m & more");
    assert_eq!(page, expected_log_page("txtme", "line &lt;1&gt;\nerr &amp; more"));
}

#[test]
fn status_pip_names_status() {
    assert_eq!(status_pip("running"), "<span class=\"pip running\"></span>");
    assert_eq!(status_pip("odd"), "<span class=\"pip odd\"></span>");
}

#[test]
fn dot_per_status() {
    assert_eq!(dot("running"), "<span class=\"dot running\">\u{25CF}\u{FE0E}</span>");
    assert_eq!(dot("degraded"), "<span class=\"dot degraded\">\u{25D0}\u{FE0E}</span>");
    assert_eq!(dot("stopped"), "<span class=\"dot stopped\">\u{25CB}\u{FE0E}</span>");
    assert_eq!(dot("unknown"), DOT_STOPPED);
    assert_eq!(dot("Running"), DOT_STOPPED);
    assert_eq!(dot(""), DOT_STOPPED);
}

#[test]
fn port_table_lookup() {
    let table = PortTable::new(vec![
        ("a".to_string(), 1),
        ("b".to_string(), 2),
        ("a".to_string(), 3),
    ]);
    assert_eq!(table.lookup("a"), Some(3));
    assert_eq!(table.lookup("b"), Some(2));
    assert_eq!(table.lookup("c"), None);
    assert_eq!(PortTable::new(vec![]).lookup("a"), None);
}

#[test]
fn render_dashboard_empty() {
    let page = render_dashboard(&vec![], &PortTable::new(vec![]), "localhost");
    assert_eq!(
        page,
        expected_page(r#"<div class="card empty">No services found in ~/.epc/services.toml</div>"#)
    );
}

#[test]
fn render_dashboard_cards() {
    let views = vec![
        ServiceView {
            snapshot: snapshot("alpha", "running", "2024-01-01T00:00:00+00:00", Some("https://github.com/x/alpha")),
            recent_checks: vec![
                check("running", Some(12), "t3"),
                check("degraded", None, "t2"),
                check("stopped", None, "t1"),
            ],
        },
        ServiceView {
            snapshot: snapshot("beta", "stopped", "2024-01-02T00:00:00+00:00", None),
            recent_checks: vec![],
        },
        ServiceView {
            snapshot: snapshot("gamma", "degraded", "t", None),
            recent_checks: vec![check("degraded", None, "t")],
        },
    ];
    let ports = PortTable::new(vec![("alpha".to_string(), 8080), ("gamma".to_string(), 65535)]);
    let page = render_dashboard(&views, &ports, "myhost");

    let url = "https://github.com/x/alpha";
    let ci = format!(
        r#"<a href="{url}/actions" target="_blank" class="ci-link"><img src="{url}/actions/workflows/ci.yml/badge.svg" alt="CI" class="ci-badge" loading="lazy" onerror="this.closest('.ci-link').remove()"></a>"#
    );
    let mut cards = String::new();
    cards.push_str(&expected_card(
        r#"<a href="http://myhost:8080" target="_blank" class="svc-link">alpha</a>"#,
        "<span class=\"pip running\"></span>",
        "running",
        "12ms",
        "2024-01-01T00:00:00+00:00",
        &format!("{}{}{}", DOT_STOPPED, DOT_DEGRADED, DOT_RUNNING),
        &ci,
        "alpha",
    ));
    cards.push_str(&expected_card(
        "beta",
        "<span class=\"pip stopped\"></span>",
        "stopped",
        "--",
        "2024-01-02T00:00:00+00:00",
        "",
        "",
        "beta",
    ));
    cards.push_str(&expected_card(
        r#"<a href="http://myhost:65535" target="_blank" class="svc-link">gamma</a>"#,
        "<span class=\"pip degraded\"></span>",
        "degraded",
        "--",
        "t",
        DOT_DEGRADED,
        "",
        "gamma",
    ));
    assert_eq!(page, expected_page(&cards));
}

#[test]
fn render_dashboard_negative_latency() {
    let views = vec![ServiceView {
        snapshot: snapshot("n", "running", "t", None),
        recent_checks: vec![check("running", Some(-7), "t"), check("running", Some(5), "t0")],
    }];
    let page = render_dashboard(&views, &PortTable::new(vec![]), "h");
    let cards = expected_card(
        "n",
        "<span class=\"pip running\"></span>",
        "running",
        "-7ms",
        "t",
        &format!("{}{}", DOT_RUNNING, DOT_RUNNING),
        "",
        "n",
    );
    assert_eq!(page, expected_page(&cards));
}

#[test]
fn sparkline_oldest_check_first() {
    let views = vec![ServiceView {
        snapshot: snapshot("s", "running", "t", None),
        recent_checks: vec![check("running", None, "new"), check("weird", None, "old")],
    }];
    let page = render_dashboard(&views, &PortTable::new(vec![]), "h");
    let expected_dots = format!("<div class=\"sparkline\">{}{}</div>", DOT_STOPPED, DOT_RUNNING);
    assert!(page.contains(&expected_dots));
}


pub fn expected_log_page(service: &str, escaped: &str) -> String {
    format!(r#"<!DOCTYPE html>
<html lang="en">
<head>
  <meta charset="UTF-8">
  <meta name="viewport" content="width=device-width, initial-scale=1">
  <title>{service} — logs</title>
  <style>
    * {{ box-sizing: border-box; margin: 0; padding: 0; }}
    body {{
      background: #0f0f1a;
      color: #c8c8e8;
      font-family: 'SF Mono', 'Menlo', monospace;
      font-size: 12px;
      padding: 16px;
    }}
    .header {{
      display: flex;
      align-items: center;
      gap: 12px;
      margin-bottom: 16px;
    }}
    a.back {{
      color: #6060a0;
      text-decoration: none;
      font-size: 12px;
    }}
    a.back:hover {{ color: #a0a0c0; }}
    h1 {{
      font-size: 14px;
      font-weight: 600;
      color: #a0a0c0;
      letter-spacing: 0.05em;
    }}
    pre {{
      white-space: pre;
      overflow-x: auto;
      line-height: 1.6;
      color: #c8c8e8;
    }}
  </style>
</head>
<body>
  <div class="header">
    <a class="back" href="/">← Observatory</a>
    <h1>{service}</h1>
  </div>
  <pre>{escaped}</pre>
</body>
</html>"#)
}

pub fn expected_card(
    svc_name_html: &str,
    pip: &str,
    last_status: &str,
    ms_label: &str,
    last_checked: &str,
    dots: &str,
    ci_badge: &str,
    name: &str,
) -> String {
    let s_last_status = last_status;
    format!(
            r#"<div class="card">
  <div class="card-header">
    <span class="svc-name">{svc_name_html}</span>
    <span class="badge">{pip}{status}</span>
  </div>
  <div class="card-meta">{ms_label} &nbsp;·&nbsp; {last_checked}</div>
  <div class="sparkline">{dots}</div>
  <div class="card-actions">
    {ci_badge}
    <a href="/logs/{name}" class="logs-btn">logs →</a>
  </div>
</div>
"#,
            status = s_last_status,
        )
}

pub fn expected_page(cards: &str) -> String {
    format!(
        r#"<!DOCTYPE html>
<html lang="en">
<head>
<meta charset="UTF-8">
<meta name="viewport" content="width=device-width, initial-scale=1, viewport-fit=cover">
<meta http-equiv="refresh" content="30">
<title>Observatory</title>
<style>
  * {{ box-sizing: border-box; margin: 0; padding: 0; }}
  body {{
    background: #0f0f1a;
    color: #e0e0f0;
    font-family: 'SF Mono', 'Menlo', monospace;
    font-size: 14px;
    padding: 16px;
    padding-bottom: calc(64px + env(safe-area-inset-bottom));
    max-width: 480px;
    margin: 0 auto;
  }}
  h1 {{
    font-size: 18px;
    font-weight: 600;
    color: #a0a0c0;
    letter-spacing: 0.05em;
    margin-bottom: 16px;
    display: flex;
    align-items: center;
    gap: 8px;
  }}
  h1 svg {{
    opacity: 0.5;
  }}
  .hex-icon polygon {{
    stroke: #a0a0c0;
    stroke-width: 1.5;
    stroke-linejoin: round;
  }}
  .card {{
    background: #1a1a2e;
    border: 1px solid #2a2a4a;
    border-radius: 10px;
    padding: 14px;
    margin-bottom: 12px;
  }}
  .card.empty {{
    color: #606080;
    font-style: italic;
  }}
  .card-header {{
    display: flex;
    justify-content: space-between;
    align-items: center;
    margin-bottom: 6px;
  }}
  .svc-name {{
    font-weight: 600;
    font-size: 15px;
    color: #c8c8f0;
  }}
  .badge {{
    font-size: 12px;
    color: #9090b0;
    display: flex;
    align-items: center;
    gap: 5px;
  }}
  .pip {{
    display: inline-block;
    width: 7px;
    height: 7px;
    border-radius: 50%;
    flex-shrink: 0;
  }}
  .pip.running  {{ background: #4caf50; box-shadow: 0 0 5px #4caf5055; }}
  .pip.degraded {{ background: #ff9800; box-shadow: 0 0 5px #ff980055; }}
  .pip.stopped  {{ background: #2a2a4a; border: 1px solid #444466; }}
  .card-meta {{
    font-size: 11px;
    color: #505070;
    margin-bottom: 8px;
  }}
  .sparkline {{
    font-size: 13px;
    letter-spacing: 1px;
    line-height: 1;
    white-space: nowrap;
    overflow: hidden;
  }}
  .dot.running  {{ color: #4caf50; }}
  .dot.degraded {{ color: #ff9800; }}
  .dot.stopped  {{ color: #444466; }}
  .ci-link {{ display: inline-block; }}
  .ci-badge {{ height: 18px; border-radius: 3px; vertical-align: middle; }}
  .card-actions {{
    display: flex;
    align-items: center;
    gap: 10px;
    margin-top: 8px;
  }}
  .svc-link {{
    color: #c8c8f0;
    text-decoration: none;
  }}
  .svc-link:hover {{ color: #a0a0ff; text-decoration: underline; }}
  .logs-btn {{
    margin-left: auto;
    font-size: 11px;
    color: #6060a0;
    text-decoration: none;
    padding: 2px 6px;
    border: 1px solid #3a3a6a;
    border-radius: 4px;
  }}
  .logs-btn:hover {{ color: #a0a0c0; border-color: #6060a0; }}
  .bottom-bar {{
    position: fixed;
    bottom: 0;
    left: 0;
    right: 0;
    padding: 12px 20px;
    padding-bottom: calc(12px + env(safe-area-inset-bottom));
    background: rgba(15, 15, 26, 0.65);
    -webkit-backdrop-filter: blur(24px) saturate(180%);
    backdrop-filter: blur(24px) saturate(180%);
    border-top: 1px solid rgba(160, 160, 220, 0.1);
    display: flex;
    justify-content: space-between;
    align-items: center;
  }}
  .bottom-bar .label {{
    font-size: 11px;
    color: #505070;
    letter-spacing: 0.04em;
  }}
  .bottom-bar .pulse {{
    width: 6px;
    height: 6px;
    border-radius: 50%;
    background: #4caf50;
    box-shadow: 0 0 6px #4caf50;
    animation: pulse 2s infinite;
  }}
  @keyframes pulse {{
    0%, 100% {{ opacity: 1; }}
    50% {{ opacity: 0.3; }}
  }}
</style>
</head>
<body>
<h1>
  <svg class="hex-icon" width="16" height="16" viewBox="0 0 16 16" fill="none">
    <polygon points="8,1 14.5,4.5 14.5,11.5 8,15 1.5,11.5 1.5,4.5"/>
  </svg>
  Observatory
</h1>
{cards}
<div class="bottom-bar">
  <span class="label">Observatory &nbsp;·&nbsp; refreshes every 30s</span>
  <div class="pulse"></div>
</div>
</body>
</html>
"#
    )
}

/// Reference scanner written with a peekable iterator.
fn reference_strip(s: &str) -> String {
    let mut out = String::with_capacity(s.len());
    let mut chars = s.chars().peekable();
    while let Some(c) = chars.next() {
        if c == '\x1b' {
            if chars.peek() == Some(&'[') {
                chars.next();
                for ch in chars.by_ref() {
                    if ('\x40'..='\x7e').contains(&ch) {
                        break;
                    }
                }
            }
        } else {
            out.push(c);
        }
    }
    out
}

fn reference_escape(s: &str) -> String {
    reference_strip(s).replace('&', "&amp;").replace('<', "&lt;").replace('>', "&gt;")
}

/// All strings of length up to `n` over a small alphabet that exercises the
/// scanner's states.
fn small_strings(n: usize) -> Vec<String> {
    let alphabet = ['\x1b', '[', 'm', '1', ';', '<', '&', '>', '\x7f', 'a'];
    let mut all = vec![String::new()];
    let mut frontier = vec![String::new()];
    for _ in 0..n {
        let mut next = Vec::new();
        for s in &frontier {
            for c in alphabet {
                let mut t = s.clone();
                t.push(c);
                next.push(t);
            }
        }
        all.extend(next.iter().cloned());
        frontier = next;
    }
    all
}

#[test]
fn strip_ansi_agrees_with_peekable_scanner() {
    for s in small_strings(4) {
        assert_eq!(strip_ansi(&s), reference_strip(&s), "input {:?}", s);
    }
}

#[test]
fn html_escape_log_agrees_with_replace_chain() {
    for s in small_strings(4) {
        assert_eq!(html_escape_log(&s), reference_escape(&s), "input {:?}", s);
    }
}

/// Reads escaped HTML back in one left-to-right pass.
fn unescape(s: &str) -> String {
    let mut out = String::new();
    let mut rest = s;
    while !rest.is_empty() {
        if let Some(r) = rest.strip_prefix("&lt;") {
            out.push('<');
            rest = r;
        } else if let Some(r) = rest.strip_prefix("&gt;") {
            out.push('>');
            rest = r;
        } else if let Some(r) = rest.strip_prefix("&amp;") {
            out.push('&');
            rest = r;
        } else {
            let c = rest.chars().next().unwrap();
            out.push(c);
            rest = &rest[c.len_utf8()..];
        }
    }
    out
}

#[test]
fn unescape_gives_back_stripped_log() {
    for s in small_strings(4) {
        assert_eq!(unescape(&html_escape_log(&s)), strip_ansi(&s), "input {:?}", s);
    }
    let s = "&lt; is written <, \x1b[1m&amp;\x1b[0m is &";
    assert_eq!(unescape(&html_escape_log(s)), strip_ansi(s));
}
