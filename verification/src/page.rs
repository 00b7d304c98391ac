//! The fixed text of the pages that the dashboard serves.

use vstd::prelude::*;

verus! {

/// Log page: everything before the service name in the title.
pub const LOG_PAGE_HEAD: &'static str = "<!DOCTYPE html>
<html lang=\"en\">
<head>
  <meta charset=\"UTF-8\">
  <meta name=\"viewport\" content=\"width=device-width, initial-scale=1\">
  <title>";

/// Log page: from the end of the title to the heading that names the service.
pub const LOG_PAGE_TITLE_END: &'static str = " \u{2014} logs</title>
  <style>
    * { box-sizing: border-box; margin: 0; padding: 0; }
    body {
      background: #0f0f1a;
      color: #c8c8e8;
      font-family: 'SF Mono', 'Menlo', monospace;
      font-size: 12px;
      padding: 16px;
    }
    .header {
      display: flex;
      align-items: center;
      gap: 12px;
      margin-bottom: 16px;
    }
    a.back {
      color: #6060a0;
      text-decoration: none;
      font-size: 12px;
    }
    a.back:hover { color: #a0a0c0; }
    h1 {
      font-size: 14px;
      font-weight: 600;
      color: #a0a0c0;
      letter-spacing: 0.05em;
    }
    pre {
      white-space: pre;
      overflow-x: auto;
      line-height: 1.6;
      color: #c8c8e8;
    }
  </style>
</head>
<body>
  <div class=\"header\">
    <a class=\"back\" href=\"/\">\u{2190} Observatory</a>
    <h1>";

/// Log page: from the end of the heading to the start of the log text.
pub const LOG_PAGE_PRE_OPEN: &'static str = "</h1>
  </div>
  <pre>";

/// Log page: everything after the log text.
pub const LOG_PAGE_TAIL: &'static str = "</pre>
</body>
</html>";

/// Card: everything before the service name.
pub const CARD_OPEN: &'static str = "<div class=\"card\">
  <div class=\"card-header\">
    <span class=\"svc-name\">";

/// Card: from the service name to the status pip.
pub const CARD_BADGE_OPEN: &'static str = "</span>
    <span class=\"badge\">";

/// Card: from the status word to the latency label.
pub const CARD_META_OPEN: &'static str = "</span>
  </div>
  <div class=\"card-meta\">";

/// Card: between the latency label and the time of the last check.
pub const CARD_META_SEP: &'static str = " &nbsp;\u{B7}&nbsp; ";

/// Card: from the time of the last check to the dots.
pub const CARD_SPARK_OPEN: &'static str = "</div>
  <div class=\"sparkline\">";

/// Card: from the dots to the CI badge.
pub const CARD_ACTIONS_OPEN: &'static str = "</div>
  <div class=\"card-actions\">
    ";

/// Card: from the CI badge to the service name in the logs link.
pub const CARD_LOGS_OPEN: &'static str = "
    <a href=\"/logs/";

/// Card: everything after the logs link target.
pub const CARD_CLOSE: &'static str = "\" class=\"logs-btn\">logs \u{2192}</a>
  </div>
</div>
";

/// Dashboard page: everything before the cards.
pub const PAGE_HEAD: &'static str = "<!DOCTYPE html>
<html lang=\"en\">
<head>
<meta charset=\"UTF-8\">
<meta name=\"viewport\" content=\"width=device-width, initial-scale=1, viewport-fit=cover\">
<meta http-equiv=\"refresh\" content=\"30\">
<title>Observatory</title>
<style>
  * { box-sizing: border-box; margin: 0; padding: 0; }
  body {
    background: #0f0f1a;
    color: #e0e0f0;
    font-family: 'SF Mono', 'Menlo', monospace;
    font-size: 14px;
    padding: 16px;
    padding-bottom: calc(64px + env(safe-area-inset-bottom));
    max-width: 480px;
    margin: 0 auto;
  }
  h1 {
    font-size: 18px;
    font-weight: 600;
    color: #a0a0c0;
    letter-spacing: 0.05em;
    margin-bottom: 16px;
    display: flex;
    align-items: center;
    gap: 8px;
  }
  h1 svg {
    opacity: 0.5;
  }
  .hex-icon polygon {
    stroke: #a0a0c0;
    stroke-width: 1.5;
    stroke-linejoin: round;
  }
  .card {
    background: #1a1a2e;
    border: 1px solid #2a2a4a;
    border-radius: 10px;
    padding: 14px;
    margin-bottom: 12px;
  }
  .card.empty {
    color: #606080;
    font-style: italic;
  }
  .card-header {
    display: flex;
    justify-content: space-between;
    align-items: center;
    margin-bottom: 6px;
  }
  .svc-name {
    font-weight: 600;
    font-size: 15px;
    color: #c8c8f0;
  }
  .badge {
    font-size: 12px;
    color: #9090b0;
    display: flex;
    align-items: center;
    gap: 5px;
  }
  .pip {
    display: inline-block;
    width: 7px;
    height: 7px;
    border-radius: 50%;
    flex-shrink: 0;
  }
  .pip.running  { background: #4caf50; box-shadow: 0 0 5px #4caf5055; }
  .pip.degraded { background: #ff9800; box-shadow: 0 0 5px #ff980055; }
  .pip.stopped  { background: #2a2a4a; border: 1px solid #444466; }
  .card-meta {
    font-size: 11px;
    color: #505070;
    margin-bottom: 8px;
  }
  .sparkline {
    font-size: 13px;
    letter-spacing: 1px;
    line-height: 1;
    white-space: nowrap;
    overflow: hidden;
  }
  .dot.running  { color: #4caf50; }
  .dot.degraded { color: #ff9800; }
  .dot.stopped  { color: #444466; }
  .ci-link { display: inline-block; }
  .ci-badge { height: 18px; border-radius: 3px; vertical-align: middle; }
  .card-actions {
    display: flex;
    align-items: center;
    gap: 10px;
    margin-top: 8px;
  }
  .svc-link {
    color: #c8c8f0;
    text-decoration: none;
  }
  .svc-link:hover { color: #a0a0ff; text-decoration: underline; }
  .logs-btn {
    margin-left: auto;
    font-size: 11px;
    color: #6060a0;
    text-decoration: none;
    padding: 2px 6px;
    border: 1px solid #3a3a6a;
    border-radius: 4px;
  }
  .logs-btn:hover { color: #a0a0c0; border-color: #6060a0; }
  .bottom-bar {
    position: fixed;
    bottom: 0;
    left: 0;
    right: 0;
    padding: 12px 20px;
    padding-bottom: calc(12px + env(safe-area-inset-bottom));
    background: rgba(15, 15, 26, 0.65);
    -webkit-backdrop-filter: blur(24px) saturate(180%);
    backdrop-filter: blur(24px) saturate(180%);
    border-top: 1px solid rgba(160, 160, 220, 0.1);
    display: flex;
    justify-content: space-between;
    align-items: center;
  }
  .bottom-bar .label {
    font-size: 11px;
    color: #505070;
    letter-spacing: 0.04em;
  }
  .bottom-bar .pulse {
    width: 6px;
    height: 6px;
    border-radius: 50%;
    background: #4caf50;
    box-shadow: 0 0 6px #4caf50;
    animation: pulse 2s infinite;
  }
  @keyframes pulse {
    0%, 100% { opacity: 1; }
    50% { opacity: 0.3; }
  }
</style>
</head>
<body>
<h1>
  <svg class=\"hex-icon\" width=\"16\" height=\"16\" viewBox=\"0 0 16 16\" fill=\"none\">
    <polygon points=\"8,1 14.5,4.5 14.5,11.5 8,15 1.5,11.5 1.5,4.5\"/>
  </svg>
  Observatory
</h1>
";

/// Dashboard page: everything after the cards.
pub const PAGE_TAIL: &'static str = "
<div class=\"bottom-bar\">
  <span class=\"label\">Observatory &nbsp;\u{B7}&nbsp; refreshes every 30s</span>
  <div class=\"pulse\"></div>
</div>
</body>
</html>
";

/// CI badge: before the repository URL of the link.
pub const CI_OPEN: &'static str = "<a href=\"";

/// CI badge: between the link URL and the repository URL of the image.
pub const CI_IMG: &'static str = "/actions\" target=\"_blank\" class=\"ci-link\"><img src=\"";

/// CI badge: after the repository URL of the image.
pub const CI_CLOSE: &'static str = "/actions/workflows/ci.yml/badge.svg\" alt=\"CI\" class=\"ci-badge\" loading=\"lazy\" onerror=\"this.closest('.ci-link').remove()\"></a>";

/// Service link: before the service URL.
pub const LINK_OPEN: &'static str = "<a href=\"";

/// Service link: between the URL and the service name.
pub const LINK_MID: &'static str = "\" target=\"_blank\" class=\"svc-link\">";

/// Service link: after the service name.
pub const LINK_CLOSE: &'static str = "</a>";

/// The card shown when no service has been checked yet.
pub const EMPTY_CARD: &'static str = "<div class=\"card empty\">No services found in ~/.epc/services.toml</div>";

} // verus!
