//! The fixed parts of the page, in their order.

use vstd::prelude::*;

verus! {

/// The page up to the time between reloads.
pub const PAGE_HEAD: &'static str = "<!DOCTYPE html>\
    <html lang=\"en\">\
    <head>\
    <meta charset=\"utf-8\">\
    <meta name=\"viewport\" content=\"width=device-width, initial-scale=1\">\
    <meta id=\"dashboard-refresh\" http-equiv=\"refresh\" content=\"";

/// The page from there up to the time of the snapshot.
pub const PAGE_STYLE: &'static str = "\">\
    <title>Symphony Dashboard</title>\
    <style>\
    body{font-family:-apple-system,BlinkMacSystemFont,'Segoe UI',sans-serif;\
    margin:0;background:#f5f7fb;color:#172033;}\
    .page{max-width:1200px;margin:0 auto;padding:32px 20px 48px;}\
    h1{margin:0 0 8px;font-size:32px;}\
    .muted{color:#5b6475;font-size:14px;}\
    .grid{display:grid;grid-template-columns:repeat(auto-fit,minmax(180px,1fr));\
    gap:16px;margin:24px 0;}\
    .card{background:#fff;border:1px solid #d9deea;border-radius:12px;padding:18px;}\
    .card h2{margin:0 0 8px;font-size:14px;color:#5b6475;text-transform:uppercase;\
    letter-spacing:.04em;}\
    .card p{margin:0;font-size:28px;font-weight:700;}\
    .section{margin-top:28px;}\
    .section h2{margin:0 0 12px;font-size:20px;}\
    table{width:100%;border-collapse:collapse;background:#fff;border:1px solid #d9deea;\
    border-radius:12px;overflow:hidden;}\
    th,td{padding:12px 14px;border-bottom:1px solid #e8ecf5;text-align:left;\
    font-size:14px;vertical-align:top;}\
    th{background:#eef2fb;color:#46506a;}\
    tr:last-child td{border-bottom:none;}\
    .empty{color:#7a8397;}\
    </style>\
    </head>\
    <body>\
    <main class=\"page\">\
    <h1>Symphony</h1>\
    <p class=\"muted\">Generated at <span id=\"generated-at\">";

/// The page from there up to the number of running sessions.
pub const PAGE_RUNNING: &'static str = "</span></p>\
    <section class=\"grid\">\
    <article class=\"card\"><h2>Running</h2><p id=\"running-count\">";

/// The page from there up to the number of waiting retries.
pub const PAGE_RETRYING: &'static str = "</p></article>\
    <article class=\"card\"><h2>Retrying</h2><p id=\"retrying-count\">";

/// The page from there up to the input tokens.
pub const PAGE_INPUT: &'static str = "</p></article>\
    <article class=\"card\"><h2>Input Tokens</h2><p id=\"input-tokens\">";

/// The page from there up to the output tokens.
pub const PAGE_OUTPUT: &'static str = "</p></article>\
    <article class=\"card\"><h2>Output Tokens</h2><p id=\"output-tokens\">";

/// The page from there up to the total of tokens.
pub const PAGE_TOTAL: &'static str = "</p></article>\
    <article class=\"card\"><h2>Total Tokens</h2><p id=\"total-tokens\">";

/// The page from there up to the seconds of running time.
pub const PAGE_SECONDS: &'static str = "</p></article>\
    <article class=\"card\"><h2>Seconds Running</h2><p id=\"seconds-running\">";

/// The page from there up to the rows of the running sessions.
pub const PAGE_SESSIONS: &'static str = "</p></article>\
    </section>\
    <section class=\"section\">\
    <h2>Running Sessions</h2>\
    <table><thead><tr>\
    <th>Issue</th><th>State</th><th>Turns</th><th>Elapsed</th><th>Workspace</th>\
    </tr></thead><tbody id=\"running-rows\">";

/// The page from there up to the rows of the waiting retries.
pub const PAGE_RETRIES: &'static str = "</tbody></table>\
    </section>\
    <section class=\"section\">\
    <h2>Retry Queue</h2>\
    <table><thead><tr>\
    <th>Issue</th><th>Attempt</th><th>Scheduled At</th><th>Reason</th>\
    </tr></thead><tbody id=\"retry-rows\">";

/// The page from there up to the time between reloads, in the script.
pub const PAGE_SCRIPT: &'static str = "</tbody></table>\
    </section>\
    </main>\
    <script>\
    const refreshMetaId='dashboard-refresh';\
    const refreshSeconds='";

/// The rest of the page.
pub const PAGE_END: &'static str = "';\
    function ensureRefreshFallback(){\
    let meta=document.getElementById(refreshMetaId);\
    if(meta){meta.content=refreshSeconds;return;}\
    meta=document.createElement('meta');\
    meta.id=refreshMetaId;\
    meta.httpEquiv='refresh';\
    meta.content=refreshSeconds;\
    document.head.appendChild(meta);\
    }\
    function disableRefreshFallback(){\
    const meta=document.getElementById(refreshMetaId);\
    if(meta){meta.remove();}\
    }\
    function escapeHtml(value){\
    return String(value??'')\
    .replaceAll('&','&amp;')\
    .replaceAll('<','&lt;')\
    .replaceAll('>','&gt;')\
    .replaceAll('\"','&quot;')\
    .replaceAll(\"'\",'&#39;');\
    }\
    function formatElapsed(startedAt, generatedAt){\
    const start=Date.parse(startedAt);\
    const now=Date.parse(generatedAt);\
    if(Number.isNaN(start)||Number.isNaN(now)){return '-';}\
    const totalSeconds=Math.max(0,Math.floor((now-start)/1000));\
    const minutes=Math.floor(totalSeconds/60);\
    const seconds=totalSeconds%60;\
    if(minutes>0){return `${minutes}m ${seconds}s`;}\
    return `${seconds}s`;\
    }\
    function renderRunningRows(snapshot){\
    const entries=Array.isArray(snapshot.running)?snapshot.running:[];\
    if(entries.length===0){\
    return '<tr><td colspan=\"5\" class=\"empty\">No running sessions</td></tr>';\
    }\
    return entries.map((entry)=>`<tr><td>${escapeHtml(entry.issue_identifier)}</td>\
    <td>${escapeHtml(entry.state)}</td><td>${escapeHtml(entry.turn_count)}</td>\
    <td>${escapeHtml(formatElapsed(entry.started_at,snapshot.generated_at))}</td>\
    <td>${escapeHtml(entry.workspace_path)}</td></tr>`).join('');\
    }\
    function renderRetryRows(snapshot){\
    const entries=Array.isArray(snapshot.retrying)?snapshot.retrying:[];\
    if(entries.length===0){\
    return '<tr><td colspan=\"4\" class=\"empty\">No retry entries</td></tr>';\
    }\
    return entries.map((entry)=>`<tr><td>${escapeHtml(entry.issue_identifier)}</td>\
    <td>${escapeHtml(entry.attempt)}</td><td>${escapeHtml(entry.scheduled_at)}</td>\
    <td>${escapeHtml(entry.reason??'-')}</td></tr>`).join('');\
    }\
    function updateDashboard(snapshot){\
    document.getElementById('generated-at').textContent=snapshot.generated_at??'-';\
    document.getElementById('running-count').textContent=snapshot.counts?.running??0;\
    document.getElementById('retrying-count').textContent=snapshot.counts?.retrying??0;\
    document.getElementById('input-tokens').textContent=\
    snapshot.codex_totals?.input_tokens??0;\
    document.getElementById('output-tokens').textContent=\
    snapshot.codex_totals?.output_tokens??0;\
    document.getElementById('total-tokens').textContent=\
    snapshot.codex_totals?.total_tokens??0;\
    document.getElementById('seconds-running').textContent=\
    Number(snapshot.codex_totals?.seconds_running??0).toFixed(1);\
    document.getElementById('running-rows').innerHTML=renderRunningRows(snapshot);\
    document.getElementById('retry-rows').innerHTML=renderRetryRows(snapshot);\
    }\
    if(window.EventSource){\
    const source=new EventSource('/api/v1/events');\
    source.addEventListener('state',(event)=>{\
    disableRefreshFallback();\
    updateDashboard(JSON.parse(event.data));\
    });\
    source.onerror=()=>{\
    ensureRefreshFallback();\
    source.close();\
    };\
    }else{\
    ensureRefreshFallback();\
    }\
    </script>\
    </body>\
    </html>";

} // verus!
