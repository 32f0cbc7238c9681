//! The page of the splash window.

use vstd::prelude::*;

use crate::encoding;
use crate::html;
use crate::json;
use crate::strings;
use crate::text;

verus! {

/// The texts of the page.
#[derive(Debug)]
pub struct SplashTexts {
    pub default_tip: String,
    pub loading_badge: String,
    pub webui_init: String,
    pub starting: String,
    pub error_badge: String,
    pub init_stopped: String,
    pub progress_meta_ready: String,
    pub preparing_log: String,
    pub log_saved_prefix: String,
    pub log_failed: String,
    pub initializing: String,
    pub minimize: String,
    pub close: String,
    pub download_log: String,
}

impl SplashTexts {
    /// The texts that the page's script uses, each with its name there.
    pub open spec fn phrases(self) -> Seq<(Seq<char>, json::FieldValue)> {
        seq![
            ("defaultTip"@, json::FieldValue::Text(self.default_tip@)),
            ("loading"@, json::FieldValue::Text(self.loading_badge@)),
            ("webuiInit"@, json::FieldValue::Text(self.webui_init@)),
            ("starting"@, json::FieldValue::Text(self.starting@)),
            ("errorBadge"@, json::FieldValue::Text(self.error_badge@)),
            ("initStopped"@, json::FieldValue::Text(self.init_stopped@)),
            ("progressMetaReady"@, json::FieldValue::Text(self.progress_meta_ready@)),
            ("preparingLog"@, json::FieldValue::Text(self.preparing_log@)),
            ("logSavedPrefix"@, json::FieldValue::Text(self.log_saved_prefix@)),
            ("logFailed"@, json::FieldValue::Text(self.log_failed@)),
        ]
    }

    /// Under each name of the script stands the text that it is for, and there is no other.
    pub proof fn each_name_stands_for_its_text(self)
        ensures
            self.phrases().contains(("defaultTip"@, json::FieldValue::Text(self.default_tip@))),
            self.phrases().contains(("loading"@, json::FieldValue::Text(self.loading_badge@))),
            self.phrases().contains(("webuiInit"@, json::FieldValue::Text(self.webui_init@))),
            self.phrases().contains(("starting"@, json::FieldValue::Text(self.starting@))),
            self.phrases().contains(("errorBadge"@, json::FieldValue::Text(self.error_badge@))),
            self.phrases().contains(("initStopped"@, json::FieldValue::Text(self.init_stopped@))),
            self.phrases().contains(("progressMetaReady"@, json::FieldValue::Text(self.progress_meta_ready@))),
            self.phrases().contains(("preparingLog"@, json::FieldValue::Text(self.preparing_log@))),
            self.phrases().contains(("logSavedPrefix"@, json::FieldValue::Text(self.log_saved_prefix@))),
            self.phrases().contains(("logFailed"@, json::FieldValue::Text(self.log_failed@))),
            self.phrases().len() == 10,
    {
        let all = self.phrases();
        assert(all[0] == ("defaultTip"@, json::FieldValue::Text(self.default_tip@)));
        assert(all[1] == ("loading"@, json::FieldValue::Text(self.loading_badge@)));
        assert(all[2] == ("webuiInit"@, json::FieldValue::Text(self.webui_init@)));
        assert(all[3] == ("starting"@, json::FieldValue::Text(self.starting@)));
        assert(all[4] == ("errorBadge"@, json::FieldValue::Text(self.error_badge@)));
        assert(all[5] == ("initStopped"@, json::FieldValue::Text(self.init_stopped@)));
        assert(all[6] == ("progressMetaReady"@, json::FieldValue::Text(self.progress_meta_ready@)));
        assert(all[7] == ("preparingLog"@, json::FieldValue::Text(self.preparing_log@)));
        assert(all[8] == ("logSavedPrefix"@, json::FieldValue::Text(self.log_saved_prefix@)));
        assert(all[9] == ("logFailed"@, json::FieldValue::Text(self.log_failed@)));
    }

    /// Each text has a name of its own in the script.
    pub proof fn names_differ(self)
        ensures
            json::names_differ(self.phrases()),
    {
        reveal_strlit("defaultTip");
        reveal_strlit("loading");
        reveal_strlit("webuiInit");
        reveal_strlit("starting");
        reveal_strlit("errorBadge");
        reveal_strlit("initStopped");
        reveal_strlit("progressMetaReady");
        reveal_strlit("preparingLog");
        reveal_strlit("logSavedPrefix");
        reveal_strlit("logFailed");
        let names = self.phrases();
        assert forall|i: int, j: int| 0 <= i < j < names.len() implies (#[trigger] names[i]).0 != (
        #[trigger] names[j]).0 by {
            let (a, b) = (names[i].0, names[j].0);
            assert(a.len() != b.len() || a[0] != b[0]);
        }
    }

    proof fn lemma_name_without_dollar(self, i: int)
        requires
            0 <= i < self.phrases().len(),
        ensures
            !self.phrases()[i].0.contains('$'),
    {
        reveal_strlit("defaultTip");
        reveal_strlit("loading");
        reveal_strlit("webuiInit");
        reveal_strlit("starting");
        reveal_strlit("errorBadge");
        reveal_strlit("initStopped");
        reveal_strlit("progressMetaReady");
        reveal_strlit("preparingLog");
        reveal_strlit("logSavedPrefix");
        reveal_strlit("logFailed");
        let name = self.phrases()[i].0;
        assert forall|k: int| 0 <= k < name.len() implies #[trigger] name[k] != '$' by {}
    }

    fn fields(&self) -> (r: Vec<json::Field>)
        ensures
            json::views(r@) == self.phrases(),
    {
        let mut fields: Vec<json::Field> = Vec::new();
        fields.push(json::text_field("defaultTip", self.default_tip.as_str()));
        fields.push(json::text_field("loading", self.loading_badge.as_str()));
        fields.push(json::text_field("webuiInit", self.webui_init.as_str()));
        fields.push(json::text_field("starting", self.starting.as_str()));
        fields.push(json::text_field("errorBadge", self.error_badge.as_str()));
        fields.push(json::text_field("initStopped", self.init_stopped.as_str()));
        fields.push(json::text_field("progressMetaReady", self.progress_meta_ready.as_str()));
        fields.push(json::text_field("preparingLog", self.preparing_log.as_str()));
        fields.push(json::text_field("logSavedPrefix", self.log_saved_prefix.as_str()));
        fields.push(json::text_field("logFailed", self.log_failed.as_str()));
        assert(json::views(fields@) =~= self.phrases());
        fields
    }
}

/// The page up to the texts for its script, with a mark for each thing that is put in.
pub const PAGE_START: &'static str = r#"<!doctype html>
<html lang="zh-CN">
<head>
<meta charset="utf-8">
<meta name="viewport" content="width=device-width, initial-scale=1">
<style>
  :root {
    --primary-color: #4facfe;
    --secondary-color: #00f2fe;
    --text-main: #ffffff;
    --text-sub: rgba(255, 255, 255, 0.76);
    --text-muted: rgba(255, 255, 255, 0.52);
    --surface-soft: rgba(255, 255, 255, 0.16);
    --surface-border: rgba(255, 255, 255, 0.15);
    --danger: #ff5f57;
    --warning: #ffbd2e;
  }
  * {
    box-sizing: border-box;
    margin: 0;
    padding: 0;
    user-select: none;
  }
  html,
  body {
    width: 100%;
    height: 100%;
    overflow: hidden;
    background: #111827;
  }
  body {
    font-family: -apple-system, BlinkMacSystemFont, "Segoe UI", Roboto, "Helvetica Neue", Arial, "Microsoft YaHei", sans-serif;
    color: var(--text-main);
  }
  button {
    font: inherit;
  }
  .launcher-window {
    position: relative;
    width: 100%;
    height: 100%;
    overflow: hidden;
    border-radius: 0;
    background: url(data:image/webp;base64,$LIGHT_BG) center/cover no-repeat;
    box-shadow: none;
    display: flex;
    flex-direction: column;
    justify-content: space-between;
  }
  @media (prefers-color-scheme: dark) {
    .launcher-window {
      background-image: url(data:image/webp;base64,$DARK_BG);
    }
  }
  .launcher-window::before {
    content: "";
    position: absolute;
    inset: 0;
    z-index: 0;
    background:
      linear-gradient(to bottom, rgba(0, 0, 0, 0.16) 0%, rgba(0, 0, 0, 0.08) 42%, rgba(0, 0, 0, 0.58) 100%),
      linear-gradient(115deg, rgba(12, 30, 72, 0.22), rgba(255, 126, 117, 0.12));
    pointer-events: none;
  }
  body.error-state .launcher-window::before {
    background:
      linear-gradient(to bottom, rgba(56, 0, 10, 0.28) 0%, rgba(78, 0, 13, 0.18) 42%, rgba(60, 0, 12, 0.68) 100%),
      linear-gradient(115deg, rgba(255, 95, 87, 0.34), rgba(255, 189, 46, 0.08));
  }
  .top-bar {
    position: relative;
    z-index: 2;
    display: flex;
    justify-content: space-between;
    align-items: center;
    min-height: 60px;
    padding: 18px 24px;
  }
  .brand-zone {
    display: flex;
    align-items: center;
    min-width: 0;
    gap: 10px;
  }
  .app-title {
    color: var(--text-main);
    font-size: 18px;
    font-weight: 700;
    letter-spacing: 0;
    text-shadow: 0 2px 6px rgba(0, 0, 0, 0.22);
  }
  .app-version {
    color: var(--text-sub);
    font-size: 12px;
    line-height: 1;
    background: rgba(255, 255, 255, 0.14);
    border: 1px solid rgba(255, 255, 255, 0.11);
    padding: 4px 9px;
    border-radius: 999px;
    backdrop-filter: blur(8px);
  }
  .top-right {
    display: flex;
    align-items: center;
    gap: 18px;
    min-width: 0;
  }
  .status-badge {
    max-width: 260px;
    min-height: 28px;
    display: inline-flex;
    align-items: center;
    gap: 7px;
    border-radius: 999px;
    padding: 6px 14px;
    color: var(--text-main);
    background: var(--surface-soft);
    border: 1px solid var(--surface-border);
    backdrop-filter: blur(12px);
    box-shadow: 0 10px 24px rgba(0, 0, 0, 0.12);
    font-size: 12px;
    font-weight: 500;
    white-space: nowrap;
    overflow: hidden;
    text-overflow: ellipsis;
    animation: pulse 2.2s ease-in-out infinite;
  }
  .status-badge::before {
    content: "";
    width: 6px;
    height: 6px;
    border-radius: 50%;
    background: var(--secondary-color);
    box-shadow: 0 0 12px rgba(0, 242, 254, 0.7);
    flex: 0 0 auto;
  }
  .window-controls {
    display: flex;
    align-items: center;
    gap: 8px;
    flex: 0 0 auto;
  }
  .win-btn {
    width: 13px;
    height: 13px;
    border: 0;
    border-radius: 50%;
    display: inline-flex;
    align-items: center;
    justify-content: center;
    cursor: pointer;
    padding: 0;
    transition: filter 140ms ease, transform 140ms ease;
  }
  .win-btn:hover {
    filter: brightness(1.07);
    transform: scale(1.04);
  }
  .win-btn:active {
    filter: brightness(0.9);
    transform: scale(0.97);
  }
  .win-btn svg {
    width: 7px;
    height: 7px;
    stroke: rgba(50, 42, 35, 0.72);
    stroke-width: 1.45;
    stroke-linecap: round;
    opacity: 0;
    transition: opacity 140ms ease;
  }
  .window-controls:hover .win-btn svg {
    opacity: 1;
  }
  .win-btn.minimize {
    background: var(--warning);
    box-shadow: 0 0 0 0.5px rgba(156, 110, 6, 0.55);
  }
  .win-btn.close {
    background: var(--danger);
    box-shadow: 0 0 0 0.5px rgba(160, 32, 28, 0.55);
  }
  .main-content {
    position: relative;
    z-index: 2;
    padding: 0 40px 35px;
  }
  .update-status {
    margin-bottom: 25px;
    max-width: min(650px, 100%);
  }
  .title-group {
    display: flex;
    align-items: center;
    gap: 12px;
    margin-bottom: 8px;
  }
  .spinner {
    width: 22px;
    height: 22px;
    border: 2.5px solid rgba(255, 255, 255, 0.24);
    border-top-color: var(--text-main);
    border-radius: 50%;
    animation: spin 0.9s linear infinite;
    flex: 0 0 auto;
  }
  .err-dot {
    width: 22px;
    height: 22px;
    border-radius: 50%;
    background: #ffffff;
    color: #c73532;
    align-items: center;
    justify-content: center;
    font-size: 14px;
    font-weight: 800;
    box-shadow: 0 5px 16px rgba(0, 0, 0, 0.2);
    flex: 0 0 auto;
  }
  .main-action-text {
    min-width: 0;
    color: var(--text-main);
    font-size: 24px;
    line-height: 1.2;
    font-weight: 650;
    letter-spacing: 0;
    text-shadow: 0 2px 10px rgba(0, 0, 0, 0.32);
  }
  .sub-action-text {
    color: var(--text-sub);
    font-size: 12px;
    font-weight: 650;
    letter-spacing: 1.2px;
    line-height: 1.45;
    margin: 0;
    max-width: min(650px, 100%);
    max-height: 54px;
    overflow: hidden;
    text-shadow: 0 1px 5px rgba(0, 0, 0, 0.28);
    text-transform: uppercase;
    white-space: pre-line;
  }
  .progress-container {
    position: relative;
    margin-bottom: 15px;
  }
  .progress-bar-bg {
    width: 100%;
    height: 6px;
    border-radius: 999px;
    background: rgba(255, 255, 255, 0.22);
    overflow: hidden;
    backdrop-filter: blur(5px);
  }
  .progress-bar-fill {
    width: 4%;
    height: 100%;
    border-radius: inherit;
    background: linear-gradient(90deg, var(--primary-color), var(--secondary-color));
    box-shadow: 0 0 14px rgba(0, 242, 254, 0.5);
    position: relative;
    overflow: hidden;
    transition: width 0.35s ease, background 0.2s ease;
  }
  .progress-bar-fill::after {
    content: "";
    position: absolute;
    inset: 0;
    background: linear-gradient(90deg, transparent, rgba(255, 255, 255, 0.48), transparent);
    transform: translateX(-100%);
    animation: sweep 2s ease-in-out infinite;
  }
  .progress-bar-fill-error {
    background: linear-gradient(90deg, #ff5f57, #ffbd2e);
    box-shadow: 0 0 14px rgba(255, 95, 87, 0.46);
  }
  .progress-bar-fill-error::after {
    display: none;
  }
  .progress-percentage {
    position: absolute;
    right: 0;
    top: -25px;
    color: var(--text-main);
    font-size: 14px;
    font-weight: 750;
    font-variant-numeric: tabular-nums;
    text-shadow: 0 2px 6px rgba(0, 0, 0, 0.32);
  }
  .footer-info {
    display: flex;
    justify-content: space-between;
    align-items: center;
    gap: 16px;
    min-height: 28px;
    font-size: 12px;
  }
  .tip-text {
    min-width: 0;
    max-width: 520px;
    color: var(--text-sub);
    background: rgba(0, 0, 0, 0.16);
    border-left: 3px solid var(--primary-color);
    border-radius: 4px;
    padding: 5px 12px;
    overflow: hidden;
    text-overflow: ellipsis;
    white-space: nowrap;
    backdrop-filter: blur(7px);
  }
  .footer-right {
    display: flex;
    align-items: center;
    justify-content: flex-end;
    gap: 10px;
    flex: 0 0 auto;
  }
  .notice-text {
    color: var(--text-muted);
    white-space: nowrap;
  }
  .splash-actions {
    display: none;
  }
  .splash-actions-err {
    display: block;
  }
  .splash-log-button {
    min-height: 28px;
    border: 1px solid rgba(255, 255, 255, 0.28);
    border-radius: 6px;
    padding: 0 11px;
    color: var(--text-main);
    background: rgba(255, 255, 255, 0.14);
    backdrop-filter: blur(10px);
    cursor: pointer;
    font-size: 12px;
    font-weight: 600;
  }
  .splash-log-button:hover {
    background: rgba(255, 255, 255, 0.23);
  }
  .splash-log-button:disabled {
    cursor: default;
    opacity: 0.65;
  }
  body.error-state .status-badge {
    background: rgba(255, 255, 255, 0.18);
    animation: none;
  }
  body.error-state .status-badge::before {
    background: #ff5f57;
    box-shadow: 0 0 12px rgba(255, 95, 87, 0.76);
  }
  body.error-state .tip-text {
    border-left-color: #ffbd2e;
  }
  @media (max-width: 720px) {
    .top-bar {
      padding: 16px 20px;
    }
    .status-badge {
      max-width: 180px;
    }
    .main-content {
      padding: 0 28px 28px;
    }
    .main-action-text {
      font-size: 22px;
    }
  }
  @media (max-width: 560px), (max-height: 340px) {
    .top-right {
      gap: 12px;
    }
    .status-badge {
      display: none;
    }
    .footer-info {
      flex-direction: column;
      align-items: flex-start;
      gap: 8px;
    }
    .footer-right {
      width: 100%;
      justify-content: space-between;
    }
    .tip-text {
      max-width: 100%;
    }
  }
  @media (max-height: 340px) {
    .main-content {
      padding-bottom: 24px;
    }
    .update-status {
      margin-bottom: 18px;
    }
    .sub-action-text {
      max-height: 36px;
    }
  }
  @keyframes spin {
    to { transform: rotate(360deg); }
  }
  @keyframes pulse {
    0%, 100% { opacity: 0.9; transform: scale(1); }
    50% { opacity: 1; transform: scale(1.015); box-shadow: 0 0 18px rgba(255, 255, 255, 0.18); }
  }
  @keyframes sweep {
    to { transform: translateX(200%); }
  }
</style>
</head>
<body>
  <div class="launcher-window">
    <div id="splash-drag-region" class="top-bar">
      <div class="brand-zone">
        <span class="app-title">AzurPilot</span>
        <span class="app-version">v$LAUNCHER_VERSION</span>
      </div>
      <div class="top-right">
        <div id="badge" class="status-badge">
          <span id="badge-text">$I18N_INITIALIZING</span>
        </div>
        <div class="window-controls">
          <button id="window-minimize" class="win-btn minimize" type="button" aria-label="$I18N_MINIMIZE" title="$I18N_MINIMIZE">
            <svg viewBox="0 0 8 8" aria-hidden="true"><line x1="2" y1="4" x2="6" y2="4"></line></svg>
          </button>
          <button id="window-close" class="win-btn close" type="button" aria-label="$I18N_CLOSE" title="$I18N_CLOSE">
            <svg viewBox="0 0 8 8" aria-hidden="true"><line x1="2" y1="2" x2="6" y2="6"></line><line x1="6" y1="2" x2="2" y2="6"></line></svg>
          </button>
        </div>
      </div>
    </div>

    <div class="main-content">
      <div class="update-status">
        <div class="title-group">
          <div id="spinner" class="spinner"></div>
          <div id="error-dot" class="err-dot" style="display:none;">!</div>
          <h1 id="title" class="main-action-text">$I18N_STARTING</h1>
        </div>
        <p id="detail" class="sub-action-text">$I18N_WEBUI_INIT</p>
      </div>

      <div class="progress-container">
        <div id="progress-pct" class="progress-percentage">4%</div>
        <div class="progress-bar-bg">
          <div id="progress-fill" class="progress-bar-fill" style="width: 4%;"></div>
        </div>
      </div>

      <div class="footer-info">
        <div id="tip-text" class="tip-text">Tips: $I18N_DEFAULT_TIP</div>
        <div class="footer-right">
          <div id="progress-meta" class="notice-text">$I18N_PROGRESS_META</div>
          <div id="splash-actions" class="splash-actions">
            <button id="splash-log-button" class="splash-log-button" type="button">$I18N_DOWNLOAD_LOG</button>
          </div>
        </div>
      </div>
    </div>
  </div>

  <script>
    const i18n = "#;

/// The page behind the texts for its script, with a mark for each thing that is put in.
pub const PAGE_END: &'static str = r#";
    const defaultTip = i18n.defaultTip;
    const invoke =
      (window.__TAURI__ && window.__TAURI__.core && window.__TAURI__.core.invoke)
      || (window.__TAURI_INTERNALS__ && window.__TAURI_INTERNALS__.invoke);

    window.addEventListener('contextmenu', event => {
      event.preventDefault();
    }, { capture: true });

    function splitSubtitle(value) {
      const text = String(value || '').trim();
      if (!text) {
        return { status: i18n.loading, tip: defaultTip };
      }
      const match = text.match(/^(.*?)\s*\|\s*Tips[:：]\s*(.*)$/);
      if (!match) {
        return { status: text, tip: defaultTip };
      }
      return {
        status: match[1].trim() || i18n.loading,
        tip: match[2].trim() || defaultTip,
      };
    }

    function normalizeDetail(value) {
      const text = String(value || '').trim();
      return text || i18n.webuiInit;
    }

    window.__ALAS_SPLASH_UPDATE = function (payload) {
      const badge = document.getElementById('badge');
      const badgeText = document.getElementById('badge-text');
      const spinner = document.getElementById('spinner');
      const errorDot = document.getElementById('error-dot');
      const progressFill = document.getElementById('progress-fill');
      const progressPct = document.getElementById('progress-pct');
      const progressMeta = document.getElementById('progress-meta');
      const splashActions = document.getElementById('splash-actions');
      const subtitle = splitSubtitle(payload.subtitle);

      badgeText.textContent = payload.is_error ? i18n.errorBadge : subtitle.status;
      document.getElementById('tip-text').textContent = 'Tips: ' + subtitle.tip;
      document.getElementById('title').textContent = payload.title || i18n.starting;
      document.getElementById('detail').textContent = normalizeDetail(payload.detail);
      progressMeta.textContent = payload.is_error
        ? i18n.initStopped
        : i18n.progressMetaReady;

      const progress = Math.max(0, Math.min(100, Number(payload.progress || 0)));
      progressFill.style.width = progress + '%';
      progressPct.textContent = progress + '%';

      if (payload.is_error) {
        document.body.classList.add('error-state');
        badge.className = 'status-badge status-badge-err';
        spinner.style.display = 'none';
        errorDot.style.display = 'flex';
        progressFill.className = 'progress-bar-fill progress-bar-fill-error';
        splashActions.className = 'splash-actions splash-actions-err';
      } else {
        document.body.classList.remove('error-state');
        badge.className = 'status-badge';
        spinner.style.display = 'block';
        errorDot.style.display = 'none';
        progressFill.className = 'progress-bar-fill';
        splashActions.className = 'splash-actions';
      }
    };

    document.getElementById('splash-drag-region').addEventListener('mousedown', event => {
      if (event.button !== 0 || event.target.closest('button')) {
        return;
      }
      if (typeof invoke === 'function') {
        invoke('window_start_dragging').catch(error => {
          console.error('Failed to drag splash window', error);
        });
      }
    });

    document.getElementById('window-minimize').addEventListener('click', event => {
      event.stopPropagation();
      if (typeof invoke === 'function') {
        invoke('window_minimize').catch(error => {
          console.error('Failed to minimize splash window', error);
        });
      }
    });

    document.getElementById('window-close').addEventListener('click', event => {
      event.stopPropagation();
      if (typeof invoke === 'function') {
        invoke('window_close').catch(error => {
          console.error('Failed to close splash window', error);
        });
      }
    });

    document.getElementById('splash-log-button').addEventListener('click', async () => {
      const button = document.getElementById('splash-log-button');
      const progressMeta = document.getElementById('progress-meta');
      button.disabled = true;
      progressMeta.textContent = i18n.preparingLog;
      try {
        if (typeof invoke !== 'function') {
          throw new Error('Tauri invoke is unavailable');
        }
        const filename = await invoke('download_today_launcher_log');
        progressMeta.textContent = i18n.logSavedPrefix + filename;
      } catch (error) {
        progressMeta.textContent = i18n.logFailed + (error && error.message ? error.message : error);
      } finally {
        button.disabled = false;
      }
    });

    window.__ALAS_SPLASH_READY = true;
  </script>
</body>
</html>"#;

/// The page, with a mark for each thing that is put in.
pub open spec fn template() -> Seq<char> {
    PAGE_START@ + "$I18N_JSON"@ + PAGE_END@
}

/// `page` with the two background images, in base64, and the texts put in, one kind of mark after
/// the other; the texts for its script are given in JSON.
pub open spec fn filled_in(
    page: Seq<char>,
    light: Seq<char>,
    dark: Seq<char>,
    version: Seq<char>,
    i18n_json: Seq<char>,
    texts: SplashTexts,
) -> Seq<char> {
    let p1 = text::replace(page, "$LIGHT_BG"@, light);
    let p2 = text::replace(p1, "$DARK_BG"@, dark);
    let p3 = text::replace(p2, "$LAUNCHER_VERSION"@, version);
    let p4 = text::replace(p3, "$I18N_JSON"@, i18n_json);
    let p5 = text::replace(p4, "$I18N_INITIALIZING"@, html::escaped(texts.initializing@));
    let p6 = text::replace(p5, "$I18N_MINIMIZE"@, html::escaped(texts.minimize@));
    let p7 = text::replace(p6, "$I18N_CLOSE"@, html::escaped(texts.close@));
    let p8 = text::replace(p7, "$I18N_STARTING"@, html::escaped(texts.starting@));
    let p9 = text::replace(p8, "$I18N_WEBUI_INIT"@, html::escaped(texts.webui_init@));
    let p10 = text::replace(p9, "$I18N_DEFAULT_TIP"@, html::escaped(texts.default_tip@));
    let p11 = text::replace(p10, "$I18N_PROGRESS_META"@, html::escaped(texts.progress_meta_ready@));
    let p12 = text::replace(p11, "$I18N_DOWNLOAD_LOG"@, html::escaped(texts.download_log@));
    p12
}

/// The page with the two background images, in base64, and the texts put in; the texts for its
/// script are given in JSON.
pub open spec fn filled_page(
    light: Seq<char>,
    dark: Seq<char>,
    version: Seq<char>,
    i18n_json: Seq<char>,
    texts: SplashTexts,
) -> Seq<char> {
    filled_in(template(), light, dark, version, i18n_json, texts)
}

/// The page with the two background images, in base64, and the texts.
pub open spec fn splash_page(
    light: Seq<char>,
    dark: Seq<char>,
    version: Seq<char>,
    texts: SplashTexts,
) -> Seq<char> {
    filled_page(light, dark, version, json::object_text(texts.phrases()), texts)
}

/// The page holds each text for its script that has no dollar sign, in JSON under its name.
pub open spec fn holds_texts(page: Seq<char>, texts: SplashTexts) -> bool {
    forall|i: int|
        0 <= i < texts.phrases().len() && (#[trigger] texts.phrases()[i].1 matches
            json::FieldValue::Text(text) && !text.contains('$')) ==> (json::member_text(
            texts.phrases()[i],
        ) matches Some(t) ==> text::contains(page, t))
}

/// What is put in for the script stays in the page where it starts with a double quote and has no
/// dollar sign: then no mark of the page can overlap it.
pub proof fn texts_for_the_script_stand_in_the_page(
    light: Seq<char>,
    dark: Seq<char>,
    version: Seq<char>,
    i18n_json: Seq<char>,
    texts: SplashTexts,
    t: Seq<char>,
)
    requires
        text::contains(i18n_json, t),
        t.len() > 0,
        t[0] == '"',
        !t.contains('$'),
    ensures
        text::contains(filled_page(light, dark, version, i18n_json, texts), t),
{
    let mark = "$I18N_JSON"@;
    reveal_strlit("$I18N_JSON");
    reveal_strlit("$LIGHT_BG");
    reveal_strlit("$DARK_BG");
    reveal_strlit("$LAUNCHER_VERSION");
    reveal_strlit("$I18N_INITIALIZING");
    reveal_strlit("$I18N_MINIMIZE");
    reveal_strlit("$I18N_CLOSE");
    reveal_strlit("$I18N_STARTING");
    reveal_strlit("$I18N_WEBUI_INIT");
    reveal_strlit("$I18N_DEFAULT_TIP");
    reveal_strlit("$I18N_PROGRESS_META");
    reveal_strlit("$I18N_DOWNLOAD_LOG");
    text::lemma_contains_itself(mark);
    text::lemma_contains_within(PAGE_START@, mark, PAGE_END@, mark);
    text::lemma_marks_apart("$LIGHT_BG"@, mark, '$', 1);
    text::lemma_marks_apart("$DARK_BG"@, mark, '$', 1);
    text::lemma_marks_apart("$LAUNCHER_VERSION"@, mark, '$', 1);
    let p0 = template();
    text::lemma_replace_keeps(p0, "$LIGHT_BG"@, light, mark);
    let p1 = text::replace(p0, "$LIGHT_BG"@, light);
    text::lemma_replace_keeps(p1, "$DARK_BG"@, dark, mark);
    let p2 = text::replace(p1, "$DARK_BG"@, dark);
    text::lemma_replace_keeps(p2, "$LAUNCHER_VERSION"@, version, mark);
    let p3 = text::replace(p2, "$LAUNCHER_VERSION"@, version);
    text::lemma_replace_puts_in(p3, mark, i18n_json, t);
    let p4 = text::replace(p3, mark, i18n_json);
    text::lemma_mark_apart_from_text("$I18N_INITIALIZING"@, t, '$');
    text::lemma_replace_keeps(p4, "$I18N_INITIALIZING"@, html::escaped(texts.initializing@), t);
    let p5 = text::replace(p4, "$I18N_INITIALIZING"@, html::escaped(texts.initializing@));
    text::lemma_mark_apart_from_text("$I18N_MINIMIZE"@, t, '$');
    text::lemma_replace_keeps(p5, "$I18N_MINIMIZE"@, html::escaped(texts.minimize@), t);
    let p6 = text::replace(p5, "$I18N_MINIMIZE"@, html::escaped(texts.minimize@));
    text::lemma_mark_apart_from_text("$I18N_CLOSE"@, t, '$');
    text::lemma_replace_keeps(p6, "$I18N_CLOSE"@, html::escaped(texts.close@), t);
    let p7 = text::replace(p6, "$I18N_CLOSE"@, html::escaped(texts.close@));
    text::lemma_mark_apart_from_text("$I18N_STARTING"@, t, '$');
    text::lemma_replace_keeps(p7, "$I18N_STARTING"@, html::escaped(texts.starting@), t);
    let p8 = text::replace(p7, "$I18N_STARTING"@, html::escaped(texts.starting@));
    text::lemma_mark_apart_from_text("$I18N_WEBUI_INIT"@, t, '$');
    text::lemma_replace_keeps(p8, "$I18N_WEBUI_INIT"@, html::escaped(texts.webui_init@), t);
    let p9 = text::replace(p8, "$I18N_WEBUI_INIT"@, html::escaped(texts.webui_init@));
    text::lemma_mark_apart_from_text("$I18N_DEFAULT_TIP"@, t, '$');
    text::lemma_replace_keeps(p9, "$I18N_DEFAULT_TIP"@, html::escaped(texts.default_tip@), t);
    let p10 = text::replace(p9, "$I18N_DEFAULT_TIP"@, html::escaped(texts.default_tip@));
    text::lemma_mark_apart_from_text("$I18N_PROGRESS_META"@, t, '$');
    text::lemma_replace_keeps(p10, "$I18N_PROGRESS_META"@, html::escaped(texts.progress_meta_ready@), t);
    let p11 = text::replace(p10, "$I18N_PROGRESS_META"@, html::escaped(texts.progress_meta_ready@));
    text::lemma_mark_apart_from_text("$I18N_DOWNLOAD_LOG"@, t, '$');
    text::lemma_replace_keeps(p11, "$I18N_DOWNLOAD_LOG"@, html::escaped(texts.download_log@), t);
}

proof fn lemma_holds_texts(
    light: Seq<char>,
    dark: Seq<char>,
    version: Seq<char>,
    i18n_json: Seq<char>,
    texts: SplashTexts,
)
    requires
        json::holds_members(i18n_json, texts.phrases()),
    ensures
        holds_texts(filled_page(light, dark, version, i18n_json, texts), texts),
{
    let members = texts.phrases();
    texts.names_differ();
    assert forall|i: int|
        0 <= i < members.len() && (#[trigger] members[i].1 matches json::FieldValue::Text(text)
            && !text.contains('$')) implies (json::member_text(members[i]) matches Some(t)
        ==> text::contains(filled_page(light, dark, version, i18n_json, texts), t)) by {
        assert(json::is_last(members, i));
        let name = members[i].0;
        let t = json::member_text(members[i]).unwrap();
        let value = members[i].1->Text_0;
        texts.lemma_name_without_dollar(i);
        json::lemma_string_text_without_dollar(name);
        json::lemma_string_text_without_dollar(value);
        reveal_strlit(":");
        assert forall|k: int| 0 <= k < t.len() implies #[trigger] t[k] != '$' by {
            let n = json::string_text(name).len();
            if k < n {
                assert(t[k] == json::string_text(name)[k]);
            } else if k > n {
                assert(t[k] == json::string_text(value)[k - n - 1]);
            }
        }
        assert(t[0] == json::string_text(name)[0]);
        texts_for_the_script_stand_in_the_page(light, dark, version, i18n_json, texts, t);
    }
}

/// The page with the two background images, in base64, and the texts; those for its script are
/// given in JSON.
pub fn fill_splash_page(
    light_bg_b64: &str,
    dark_bg_b64: &str,
    launcher_version: &str,
    i18n_json: &str,
    texts: &SplashTexts,
) -> (r: String)
    ensures
        r@ == filled_page(
            light_bg_b64@,
            dark_bg_b64@,
            launcher_version@,
            i18n_json@,
            *texts,
        ),
{
    proof {
        reveal_strlit("$LIGHT_BG");
        reveal_strlit("$DARK_BG");
        reveal_strlit("$LAUNCHER_VERSION");
        reveal_strlit("$I18N_JSON");
        reveal_strlit("$I18N_INITIALIZING");
        reveal_strlit("$I18N_MINIMIZE");
        reveal_strlit("$I18N_CLOSE");
        reveal_strlit("$I18N_STARTING");
        reveal_strlit("$I18N_WEBUI_INIT");
        reveal_strlit("$I18N_DEFAULT_TIP");
        reveal_strlit("$I18N_PROGRESS_META");
        reveal_strlit("$I18N_DOWNLOAD_LOG");
    }
    let mut start: String = PAGE_START.to_owned();
    start.append("$I18N_JSON");
    start.append(PAGE_END);
    let mut page: Vec<char> = strings::chars_of(start.as_str());
    page = strings::replaced(&page, "$LIGHT_BG", light_bg_b64);
    page = strings::replaced(&page, "$DARK_BG", dark_bg_b64);
    page = strings::replaced(&page, "$LAUNCHER_VERSION", launcher_version);
    page = strings::replaced(&page, "$I18N_JSON", i18n_json);
    page = strings::replaced(&page, "$I18N_INITIALIZING", html::escape_html(texts.initializing.as_str()).as_str());
    page = strings::replaced(&page, "$I18N_MINIMIZE", html::escape_html(texts.minimize.as_str()).as_str());
    page = strings::replaced(&page, "$I18N_CLOSE", html::escape_html(texts.close.as_str()).as_str());
    page = strings::replaced(&page, "$I18N_STARTING", html::escape_html(texts.starting.as_str()).as_str());
    page = strings::replaced(&page, "$I18N_WEBUI_INIT", html::escape_html(texts.webui_init.as_str()).as_str());
    page = strings::replaced(&page, "$I18N_DEFAULT_TIP", html::escape_html(texts.default_tip.as_str()).as_str());
    page = strings::replaced(&page, "$I18N_PROGRESS_META", html::escape_html(texts.progress_meta_ready.as_str()).as_str());
    page = strings::replaced(&page, "$I18N_DOWNLOAD_LOG", html::escape_html(texts.download_log.as_str()).as_str());
    strings::string_of(&page)
}

/// The page of the splash window, where the background images are given in base64.
pub fn splash_redesigned_shell_html(
    light_bg_b64: &str,
    dark_bg_b64: &str,
    launcher_version: &str,
    texts: &SplashTexts,
) -> (r: String)
    ensures
        r@ == splash_page(light_bg_b64@, dark_bg_b64@, launcher_version@, *texts),
        holds_texts(r@, *texts),
{
    let i18n_json = json::object(&texts.fields());
    proof {
        lemma_holds_texts(
            light_bg_b64@,
            dark_bg_b64@,
            launcher_version@,
            i18n_json@,
            *texts,
        );
    }
    fill_splash_page(
        light_bg_b64,
        dark_bg_b64,
        launcher_version,
        i18n_json.as_str(),
        texts,
    )
}

/// The page of the splash window with the two background images.
pub fn splash_response(
    light_bg: &[u8],
    dark_bg: &[u8],
    launcher_version: &str,
    texts: &SplashTexts,
) -> (r: String)
    requires
        encoding::can_encode(light_bg@),
        encoding::can_encode(dark_bg@),
    ensures
        r@ == splash_page(
            encoding::base64_of(light_bg@),
            encoding::base64_of(dark_bg@),
            launcher_version@,
            *texts,
        ),
        holds_texts(r@, *texts),
{
    let light_bg_b64 = encoding::encoded(light_bg);
    let dark_bg_b64 = encoding::encoded(dark_bg);
    splash_redesigned_shell_html(
        light_bg_b64.as_str(),
        dark_bg_b64.as_str(),
        launcher_version,
        texts,
    )
}

/// The script that hands an update, written in JSON, to the page.
pub fn update_splash(payload: &str) -> (r: String)
    ensures
        r@ == "window.__ALAS_SPLASH_UPDATE && window.__ALAS_SPLASH_UPDATE("@ + payload@ + ");"@,
{
    let mut script: String =
        "window.__ALAS_SPLASH_UPDATE && window.__ALAS_SPLASH_UPDATE(".to_owned();
    script.append(payload);
    script.append(");");
    script
}

/// What is put in for each mark is what it names, as long as that holds no dollar sign: the two images
/// and the version as they are, the texts for the script in JSON, and each other text as HTML shows
/// it.
pub proof fn each_mark_stands_for_what_it_names(
    light: Seq<char>,
    dark: Seq<char>,
    version: Seq<char>,
    i18n_json: Seq<char>,
    texts: SplashTexts,
)
    ensures
        !light.contains('$') ==> filled_in("$LIGHT_BG"@, light, dark, version, i18n_json, texts) == light,
        !dark.contains('$') ==> filled_in("$DARK_BG"@, light, dark, version, i18n_json, texts) == dark,
        !version.contains('$') ==> filled_in("$LAUNCHER_VERSION"@, light, dark, version, i18n_json, texts) == version,
        !i18n_json.contains('$') ==> filled_in("$I18N_JSON"@, light, dark, version, i18n_json, texts) == i18n_json,
        !html::escaped(texts.initializing@).contains('$') ==> filled_in("$I18N_INITIALIZING"@, light, dark, version, i18n_json, texts) == html::escaped(texts.initializing@),
        !html::escaped(texts.minimize@).contains('$') ==> filled_in("$I18N_MINIMIZE"@, light, dark, version, i18n_json, texts) == html::escaped(texts.minimize@),
        !html::escaped(texts.close@).contains('$') ==> filled_in("$I18N_CLOSE"@, light, dark, version, i18n_json, texts) == html::escaped(texts.close@),
        !html::escaped(texts.starting@).contains('$') ==> filled_in("$I18N_STARTING"@, light, dark, version, i18n_json, texts) == html::escaped(texts.starting@),
        !html::escaped(texts.webui_init@).contains('$') ==> filled_in("$I18N_WEBUI_INIT"@, light, dark, version, i18n_json, texts) == html::escaped(texts.webui_init@),
        !html::escaped(texts.default_tip@).contains('$') ==> filled_in("$I18N_DEFAULT_TIP"@, light, dark, version, i18n_json, texts) == html::escaped(texts.default_tip@),
        !html::escaped(texts.progress_meta_ready@).contains('$') ==> filled_in("$I18N_PROGRESS_META"@, light, dark, version, i18n_json, texts) == html::escaped(texts.progress_meta_ready@),
        !html::escaped(texts.download_log@).contains('$') ==> filled_in("$I18N_DOWNLOAD_LOG"@, light, dark, version, i18n_json, texts) == html::escaped(texts.download_log@),
{
    if !light.contains('$') {
        lemma_mark_filled(light, dark, version, i18n_json, texts, 0);
    }
    if !dark.contains('$') {
        lemma_mark_filled(light, dark, version, i18n_json, texts, 1);
    }
    if !version.contains('$') {
        lemma_mark_filled(light, dark, version, i18n_json, texts, 2);
    }
    if !i18n_json.contains('$') {
        lemma_mark_filled(light, dark, version, i18n_json, texts, 3);
    }
    if !html::escaped(texts.initializing@).contains('$') {
        lemma_mark_filled(light, dark, version, i18n_json, texts, 4);
    }
    if !html::escaped(texts.minimize@).contains('$') {
        lemma_mark_filled(light, dark, version, i18n_json, texts, 5);
    }
    if !html::escaped(texts.close@).contains('$') {
        lemma_mark_filled(light, dark, version, i18n_json, texts, 6);
    }
    if !html::escaped(texts.starting@).contains('$') {
        lemma_mark_filled(light, dark, version, i18n_json, texts, 7);
    }
    if !html::escaped(texts.webui_init@).contains('$') {
        lemma_mark_filled(light, dark, version, i18n_json, texts, 8);
    }
    if !html::escaped(texts.default_tip@).contains('$') {
        lemma_mark_filled(light, dark, version, i18n_json, texts, 9);
    }
    if !html::escaped(texts.progress_meta_ready@).contains('$') {
        lemma_mark_filled(light, dark, version, i18n_json, texts, 10);
    }
    if !html::escaped(texts.download_log@).contains('$') {
        lemma_mark_filled(light, dark, version, i18n_json, texts, 11);
    }
}

/// The marks in the order in which they are filled, each with what is put in for it.
spec fn fillings(
    light: Seq<char>,
    dark: Seq<char>,
    version: Seq<char>,
    i18n_json: Seq<char>,
    texts: SplashTexts,
) -> Seq<(Seq<char>, Seq<char>)> {
    seq![
        ("$LIGHT_BG"@, light),
        ("$DARK_BG"@, dark),
        ("$LAUNCHER_VERSION"@, version),
        ("$I18N_JSON"@, i18n_json),
        ("$I18N_INITIALIZING"@, html::escaped(texts.initializing@)),
        ("$I18N_MINIMIZE"@, html::escaped(texts.minimize@)),
        ("$I18N_CLOSE"@, html::escaped(texts.close@)),
        ("$I18N_STARTING"@, html::escaped(texts.starting@)),
        ("$I18N_WEBUI_INIT"@, html::escaped(texts.webui_init@)),
        ("$I18N_DEFAULT_TIP"@, html::escaped(texts.default_tip@)),
        ("$I18N_PROGRESS_META"@, html::escaped(texts.progress_meta_ready@)),
        ("$I18N_DOWNLOAD_LOG"@, html::escaped(texts.download_log@)),
    ]
}

/// `page` with the first `n` marks filled.
spec fn filled_up_to(page: Seq<char>, fillings: Seq<(Seq<char>, Seq<char>)>, n: int) -> Seq<char>
    decreases n,
{
    if n <= 0 {
        page
    } else {
        text::replace(
            filled_up_to(page, fillings, n - 1),
            fillings[n - 1].0,
            fillings[n - 1].1,
        )
    }
}

proof fn lemma_marks_differ()
    ensures
        forall|light: Seq<char>, dark: Seq<char>, version: Seq<char>, i18n_json: Seq<char>, texts:
            SplashTexts, i: int|
            0 <= i < 12 ==> text::starts_only_with(
                (#[trigger] fillings(light, dark, version, i18n_json, texts)[i]).0,
                '$',
            ),
{
    reveal_strlit("$LIGHT_BG");
    reveal_strlit("$DARK_BG");
    reveal_strlit("$LAUNCHER_VERSION");
    reveal_strlit("$I18N_JSON");
    reveal_strlit("$I18N_INITIALIZING");
    reveal_strlit("$I18N_MINIMIZE");
    reveal_strlit("$I18N_CLOSE");
    reveal_strlit("$I18N_STARTING");
    reveal_strlit("$I18N_WEBUI_INIT");
    reveal_strlit("$I18N_DEFAULT_TIP");
    reveal_strlit("$I18N_PROGRESS_META");
    reveal_strlit("$I18N_DOWNLOAD_LOG");
}

proof fn lemma_marks_apart(
    light: Seq<char>,
    dark: Seq<char>,
    version: Seq<char>,
    i18n_json: Seq<char>,
    texts: SplashTexts,
    i: int,
    j: int,
)
    requires
        0 <= i < 12,
        0 <= j < 12,
        i != j,
    ensures
        ({
            let all = fillings(light, dark, version, i18n_json, texts);
            exists|at: int|
                0 <= at < all[i].0.len() && at < all[j].0.len() && #[trigger] all[i].0[at]
                    != all[j].0[at]
        }),
{
    reveal_strlit("$LIGHT_BG");
    reveal_strlit("$DARK_BG");
    reveal_strlit("$LAUNCHER_VERSION");
    reveal_strlit("$I18N_JSON");
    reveal_strlit("$I18N_INITIALIZING");
    reveal_strlit("$I18N_MINIMIZE");
    reveal_strlit("$I18N_CLOSE");
    reveal_strlit("$I18N_STARTING");
    reveal_strlit("$I18N_WEBUI_INIT");
    reveal_strlit("$I18N_DEFAULT_TIP");
    reveal_strlit("$I18N_PROGRESS_META");
    reveal_strlit("$I18N_DOWNLOAD_LOG");
    let all = fillings(light, dark, version, i18n_json, texts);
    assert(all[i].0[1] != all[j].0[1] || all[i].0[2] != all[j].0[2] || all[i].0[6] != all[j].0[6] || all[i].0[7] != all[j].0[7]);
}

proof fn lemma_mark_filled(
    light: Seq<char>,
    dark: Seq<char>,
    version: Seq<char>,
    i18n_json: Seq<char>,
    texts: SplashTexts,
    k: int,
)
    requires
        0 <= k < 12,
        !fillings(light, dark, version, i18n_json, texts)[k].1.contains('$'),
    ensures
        filled_in(
            fillings(light, dark, version, i18n_json, texts)[k].0,
            light,
            dark,
            version,
            i18n_json,
            texts,
        ) == fillings(light, dark, version, i18n_json, texts)[k].1,
{
    let all = fillings(light, dark, version, i18n_json, texts);
    lemma_filled_up_to(light, dark, version, i18n_json, texts, k, 12);
    reveal_with_fuel(filled_up_to, 13);
}

proof fn lemma_filled_up_to(
    light: Seq<char>,
    dark: Seq<char>,
    version: Seq<char>,
    i18n_json: Seq<char>,
    texts: SplashTexts,
    k: int,
    n: int,
)
    requires
        0 <= k < 12,
        0 <= n <= 12,
        !fillings(light, dark, version, i18n_json, texts)[k].1.contains('$'),
    ensures
        ({
            let all = fillings(light, dark, version, i18n_json, texts);
            filled_up_to(all[k].0, all, n) == if n <= k {
                all[k].0
            } else {
                all[k].1
            }
        }),
    decreases n,
{
    let all = fillings(light, dark, version, i18n_json, texts);
    if n > 0 {
        lemma_filled_up_to(light, dark, version, i18n_json, texts, k, n - 1);
        lemma_marks_differ();
        let mark = all[n - 1].0;
        assert(text::starts_only_with(mark, '$'));
        assert(text::starts_only_with(all[k].0, '$'));
        if n - 1 < k {
            lemma_marks_apart(light, dark, version, i18n_json, texts, n - 1, k);
            let at = choose|at: int|
                0 <= at < mark.len() && at < all[k].0.len() && #[trigger] mark[at] != all[k].0[at];
            assert forall|j: int| 0 <= j implies !#[trigger] text::occurs_at(all[k].0, mark, j) by {
                if text::occurs_at(all[k].0, mark, j) {
                    assert(all[k].0.subrange(j, j + mark.len())[0] == mark[0]);
                    assert(all[k].0.subrange(j, j + mark.len())[at] == mark[at]);
                }
            }
            text::lemma_find_none(all[k].0, mark, 0);
        } else if n - 1 == k {
            assert(mark.subrange(0, mark.len() as int) =~= mark);
            assert(text::occurs_at(mark, mark, 0));
            text::lemma_find_is(mark, mark, 0, 0);
            let rest = mark.skip(mark.len() as int);
            assert(rest =~= Seq::empty());
            assert forall|j: int| 0 <= j implies !#[trigger] text::occurs_at(rest, mark, j) by {}
            text::lemma_find_none(rest, mark, 0);
            assert(text::replace(rest, mark, all[k].1) == rest);
            assert(mark.take(0) + all[k].1 + rest =~= all[k].1);
        } else {
            let value = all[k].1;
            assert forall|j: int| 0 <= j implies !#[trigger] text::occurs_at(value, mark, j) by {
                if text::occurs_at(value, mark, j) {
                    assert(value.subrange(j, j + mark.len())[0] == '$');
                    assert(value.contains(value[j]));
                }
            }
            text::lemma_find_none(value, mark, 0);
        }
    }
}

} // verus!
