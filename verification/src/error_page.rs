//! The page that is shown when the backend cannot be reached.

use vstd::prelude::*;

use crate::backend;
use crate::json;
use crate::strings;
use crate::text;
use crate::titlebar;

verus! {

/// The texts of the page.
#[derive(Debug)]
pub struct ErrorPageTexts {
    pub title: String,
    pub heading: String,
    pub description: String,
    pub connection_info: String,
    pub address: String,
    pub error_label: String,
    pub retry: String,
    pub download_gui_log: String,
    pub download_launcher_log: String,
    pub reconnecting: String,
    pub still_failed: String,
    pub retry_failed: String,
    pub preparing: String,
    pub saved: String,
    pub download_failed: String,
    pub titlebar: titlebar::TitlebarTexts,
}

impl ErrorPageTexts {
    /// The texts that the page's script uses, each with its name there.
    pub open spec fn phrases(self) -> Seq<(Seq<char>, json::FieldValue)> {
        seq![
            ("title"@, json::FieldValue::Text(self.title@)),
            ("heading"@, json::FieldValue::Text(self.heading@)),
            ("description"@, json::FieldValue::Text(self.description@)),
            ("address"@, json::FieldValue::Text(self.address@)),
            ("errorLabel"@, json::FieldValue::Text(self.error_label@)),
            ("retry"@, json::FieldValue::Text(self.retry@)),
            ("downloadGuiLog"@, json::FieldValue::Text(self.download_gui_log@)),
            ("downloadLauncherLog"@, json::FieldValue::Text(self.download_launcher_log@)),
            ("reconnecting"@, json::FieldValue::Text(self.reconnecting@)),
            ("stillFailed"@, json::FieldValue::Text(self.still_failed@)),
            ("retryFailed"@, json::FieldValue::Text(self.retry_failed@)),
            ("preparing"@, json::FieldValue::Text(self.preparing@)),
            ("saved"@, json::FieldValue::Text(self.saved@)),
            ("downloadFailed"@, json::FieldValue::Text(self.download_failed@)),
        ]
    }

    /// Under each name of the script stands the text that it is for, and there is no other.
    pub proof fn each_name_stands_for_its_text(self)
        ensures
            self.phrases().contains(("title"@, json::FieldValue::Text(self.title@))),
            self.phrases().contains(("heading"@, json::FieldValue::Text(self.heading@))),
            self.phrases().contains(("description"@, json::FieldValue::Text(self.description@))),
            self.phrases().contains(("address"@, json::FieldValue::Text(self.address@))),
            self.phrases().contains(("errorLabel"@, json::FieldValue::Text(self.error_label@))),
            self.phrases().contains(("retry"@, json::FieldValue::Text(self.retry@))),
            self.phrases().contains(("downloadGuiLog"@, json::FieldValue::Text(self.download_gui_log@))),
            self.phrases().contains(("downloadLauncherLog"@, json::FieldValue::Text(self.download_launcher_log@))),
            self.phrases().contains(("reconnecting"@, json::FieldValue::Text(self.reconnecting@))),
            self.phrases().contains(("stillFailed"@, json::FieldValue::Text(self.still_failed@))),
            self.phrases().contains(("retryFailed"@, json::FieldValue::Text(self.retry_failed@))),
            self.phrases().contains(("preparing"@, json::FieldValue::Text(self.preparing@))),
            self.phrases().contains(("saved"@, json::FieldValue::Text(self.saved@))),
            self.phrases().contains(("downloadFailed"@, json::FieldValue::Text(self.download_failed@))),
            self.phrases().len() == 14,
    {
        let all = self.phrases();
        assert(all[0] == ("title"@, json::FieldValue::Text(self.title@)));
        assert(all[1] == ("heading"@, json::FieldValue::Text(self.heading@)));
        assert(all[2] == ("description"@, json::FieldValue::Text(self.description@)));
        assert(all[3] == ("address"@, json::FieldValue::Text(self.address@)));
        assert(all[4] == ("errorLabel"@, json::FieldValue::Text(self.error_label@)));
        assert(all[5] == ("retry"@, json::FieldValue::Text(self.retry@)));
        assert(all[6] == ("downloadGuiLog"@, json::FieldValue::Text(self.download_gui_log@)));
        assert(all[7] == ("downloadLauncherLog"@, json::FieldValue::Text(self.download_launcher_log@)));
        assert(all[8] == ("reconnecting"@, json::FieldValue::Text(self.reconnecting@)));
        assert(all[9] == ("stillFailed"@, json::FieldValue::Text(self.still_failed@)));
        assert(all[10] == ("retryFailed"@, json::FieldValue::Text(self.retry_failed@)));
        assert(all[11] == ("preparing"@, json::FieldValue::Text(self.preparing@)));
        assert(all[12] == ("saved"@, json::FieldValue::Text(self.saved@)));
        assert(all[13] == ("downloadFailed"@, json::FieldValue::Text(self.download_failed@)));
    }

    /// Each text has a name of its own in the script.
    pub proof fn names_differ(self)
        ensures
            json::names_differ(self.phrases()),
    {
        reveal_strlit("title");
        reveal_strlit("heading");
        reveal_strlit("description");
        reveal_strlit("address");
        reveal_strlit("errorLabel");
        reveal_strlit("retry");
        reveal_strlit("downloadGuiLog");
        reveal_strlit("downloadLauncherLog");
        reveal_strlit("reconnecting");
        reveal_strlit("stillFailed");
        reveal_strlit("retryFailed");
        reveal_strlit("preparing");
        reveal_strlit("saved");
        reveal_strlit("downloadFailed");
        let names = self.phrases();
        assert forall|i: int, j: int| 0 <= i < j < names.len() implies (#[trigger] names[i]).0 != (
        #[trigger] names[j]).0 by {
            let (a, b) = (names[i].0, names[j].0);
            assert(a.len() != b.len() || a[0] != b[0] || a[8] != b[8]);
        }
    }

    fn fields(&self) -> (r: Vec<json::Field>)
        ensures
            json::views(r@) == self.phrases(),
    {
        let mut fields: Vec<json::Field> = Vec::new();
        fields.push(json::text_field("title", self.title.as_str()));
        fields.push(json::text_field("heading", self.heading.as_str()));
        fields.push(json::text_field("description", self.description.as_str()));
        fields.push(json::text_field("address", self.address.as_str()));
        fields.push(json::text_field("errorLabel", self.error_label.as_str()));
        fields.push(json::text_field("retry", self.retry.as_str()));
        fields.push(json::text_field("downloadGuiLog", self.download_gui_log.as_str()));
        fields.push(json::text_field("downloadLauncherLog", self.download_launcher_log.as_str()));
        fields.push(json::text_field("reconnecting", self.reconnecting.as_str()));
        fields.push(json::text_field("stillFailed", self.still_failed.as_str()));
        fields.push(json::text_field("retryFailed", self.retry_failed.as_str()));
        fields.push(json::text_field("preparing", self.preparing.as_str()));
        fields.push(json::text_field("saved", self.saved.as_str()));
        fields.push(json::text_field("downloadFailed", self.download_failed.as_str()));
        assert(json::views(fields@) =~= self.phrases());
        fields
    }
}

/// The page up to its title.
pub const BEFORE_TITLE: &'static str = r#"<!doctype html>
<html>
<head>
<meta charset="utf-8">
<meta name="viewport" content="width=device-width, initial-scale=1">
<title>"#;

/// What stands between the title and the heading.
pub const BEFORE_HEADING: &'static str = r#"</title>
<style>
  :root {
    color-scheme: light;
    --bg: #f5f7fb;
    --panel: #ffffff;
    --border: #d9e2ee;
    --text: #182230;
    --muted: #5f6f84;
    --danger: #c03434;
    --danger-bg: #fff1f1;
    --primary: #1f66ad;
    --primary-hover: #18558f;
  }
  * {
    box-sizing: border-box;
  }
  html, body {
    min-height: 100%;
    margin: 0;
    font-family: "Segoe UI", "SF Pro Text", "Helvetica Neue", Arial, sans-serif;
    color: var(--text);
    background: var(--bg);
  }
  body {
    display: grid;
    place-items: center;
    padding: 72px 28px 32px;
  }
  .panel {
    width: min(680px, 100%);
    border: 1px solid var(--border);
    border-radius: 8px;
    background: var(--panel);
    box-shadow: 0 18px 44px rgba(21, 35, 54, 0.10);
    padding: 32px;
  }
  .mark {
    width: 38px;
    height: 38px;
    border-radius: 8px;
    display: grid;
    place-items: center;
    background: var(--danger-bg);
    color: var(--danger);
    border: 1px solid #f0caca;
    font-size: 24px;
    line-height: 1;
    font-weight: 600;
    margin-bottom: 20px;
  }
  h1 {
    margin: 0;
    font-size: 28px;
    font-weight: 600;
    line-height: 1.2;
  }
  .lead {
    margin: 12px 0 0;
    color: var(--muted);
    font-size: 15px;
    line-height: 1.7;
  }
  .details {
    margin: 24px 0 0;
    border: 1px solid var(--border);
    border-radius: 8px;
    overflow: hidden;
    background: #fbfdff;
  }
  .row {
    display: grid;
    grid-template-columns: 72px minmax(0, 1fr);
    gap: 14px;
    padding: 13px 16px;
    border-top: 1px solid var(--border);
    font-size: 13px;
    line-height: 1.55;
  }
  .row:first-child {
    border-top: 0;
  }
  .label {
    color: var(--muted);
  }
  .value {
    min-width: 0;
    overflow-wrap: anywhere;
    font-family: Consolas, "SFMono-Regular", Menlo, monospace;
  }
  .actions {
    display: flex;
    align-items: center;
    gap: 12px;
    flex-wrap: wrap;
    margin-top: 24px;
  }
  .action-button {
    min-height: 38px;
    border: 1px solid transparent;
    border-radius: 6px;
    padding: 0 16px;
    font: inherit;
    font-size: 14px;
    cursor: pointer;
    color: #ffffff;
    background: var(--primary);
  }
  .action-button:hover {
    background: var(--primary-hover);
  }
  .action-button:disabled {
    cursor: default;
    opacity: 0.65;
  }
  .status {
    min-height: 20px;
    color: var(--muted);
    font-size: 13px;
  }
  @media (max-width: 560px) {
    body {
      padding: 64px 16px 22px;
      place-items: start stretch;
    }
    .panel {
      padding: 24px;
    }
    h1 {
      font-size: 23px;
    }
    .row {
      grid-template-columns: 1fr;
      gap: 4px;
    }
    .action-button {
      width: 100%;
    }
  }
</style>
</head>
<body>
  <main class="panel">
    <div class="mark">!</div>
    <h1>"#;

/// What stands between the heading and the description.
pub const BEFORE_DESCRIPTION: &'static str = r#"</h1>
    <p class="lead">"#;

/// What stands between the description and the connection info.
pub const BEFORE_CONNECTION_INFO: &'static str = r#"</p>
    <section class="details" aria-label=""#;

/// What stands between the connection info and the address.
pub const BEFORE_ADDRESS: &'static str = r#"">
      <div class="row">
        <div class="label">"#;

/// What stands between the address and the error label.
pub const BEFORE_ERROR_LABEL: &'static str = r#"</div>
        <div id="backend-url" class="value"></div>
      </div>
      <div class="row">
        <div class="label">"#;

/// What stands between the error label and the retry.
pub const BEFORE_RETRY: &'static str = r#"</div>
        <div id="error-detail" class="value"></div>
      </div>
    </section>
    <div class="actions">
      <button id="retry-button" class="action-button" type="button">"#;

/// What stands between the retry and the download gui log.
pub const BEFORE_DOWNLOAD_GUI_LOG: &'static str = r#"</button>
      <button id="gui-log-button" class="action-button" type="button">"#;

/// What stands between the download gui log and the download launcher log.
pub const BEFORE_DOWNLOAD_LAUNCHER_LOG: &'static str = r#"</button>
      <button id="launcher-log-button" class="action-button" type="button">"#;

/// What stands between the download launcher log and the titlebar script.
pub const BEFORE_TITLEBAR_SCRIPT: &'static str = r#"</button>
      <span id="retry-status" class="status"></span>
    </div>
  </main>
  <script>
    (function () {
"#;

/// What stands between the titlebar script and the i18n json.
pub const BEFORE_I18N_JSON: &'static str = r#"
    })();

    const i18n = "#;

/// What stands between the i18n json and the backend url json.
pub const BEFORE_BACKEND_URL_JSON: &'static str = r#";
    const backendUrl = "#;

/// What stands between the backend url json and the error detail json.
pub const BEFORE_ERROR_DETAIL_JSON: &'static str = r#";
    const errorDetail = "#;

/// What stands between the error detail json and the port.
pub const BEFORE_PORT: &'static str = r#";
    const port = "#;

/// What stands between the port and the gui log label.
pub const BEFORE_GUI_LOG_LABEL: &'static str = r#";
    const retryButton = document.getElementById('retry-button');
    const guiLogButton = document.getElementById('gui-log-button');
    const launcherLogButton = document.getElementById('launcher-log-button');
    const retryStatus = document.getElementById('retry-status');
    const invoke =
      (window.__TAURI__ && window.__TAURI__.core && window.__TAURI__.core.invoke)
      || (window.__TAURI_INTERNALS__ && window.__TAURI_INTERNALS__.invoke);

    document.getElementById('backend-url').textContent = backendUrl;
    document.getElementById('error-detail').textContent = errorDetail;

    retryButton.addEventListener('click', async () => {
      retryButton.disabled = true;
      retryStatus.textContent = i18n.reconnecting;
      try {
        if (typeof invoke !== 'function') {
          throw new Error('Tauri invoke is unavailable');
        }
        const connected = await invoke('retry_backend_connection', { port });
        if (!connected) {
          retryStatus.textContent = i18n.stillFailed;
          retryButton.disabled = false;
        }
      } catch (error) {
        retryStatus.textContent = i18n.retryFailed + (error && error.message ? error.message : error);
        retryButton.disabled = false;
      }
    });

    async function downloadLog(button, command, label) {
      button.disabled = true;
      retryStatus.textContent = i18n.preparing.replace('%{label}', label);
      try {
        if (typeof invoke !== 'function') {
          throw new Error('Tauri invoke is unavailable');
        }
        const filename = await invoke(command);
        retryStatus.textContent = i18n.saved.replace('%{filename}', filename);
      } catch (error) {
        retryStatus.textContent = i18n.downloadFailed.replace('%{label}', label) + (error && error.message ? error.message : error);
      } finally {
        button.disabled = false;
      }
    }

    guiLogButton.addEventListener('click', () => {
      downloadLog(guiLogButton, 'download_today_gui_log', '"#;

/// What stands between the gui log label and the launcher log label.
pub const BEFORE_LAUNCHER_LOG_LABEL: &'static str = r#"');
    });

    launcherLogButton.addEventListener('click', () => {
      downloadLog(launcherLogButton, 'download_today_launcher_log', '"#;

/// The end of the page.
pub const PAGE_END: &'static str = r#"');
    });

    // 每秒尝试自动刷新（重试连接）
    setInterval(() => {
      if (!retryButton.disabled) {
        retryButton.click();
      }
    }, 1000);
  </script>
</body>
</html>"#;

/// The page up to the texts for its script, where the script of the title bar is given.
pub open spec fn until_texts(titlebar_script: Seq<char>, texts: ErrorPageTexts) -> Seq<char> {
    BEFORE_TITLE@
        + texts.title@
        + BEFORE_HEADING@
        + texts.heading@
        + BEFORE_DESCRIPTION@
        + texts.description@
        + BEFORE_CONNECTION_INFO@
        + texts.connection_info@
        + BEFORE_ADDRESS@
        + texts.address@
        + BEFORE_ERROR_LABEL@
        + texts.error_label@
        + BEFORE_RETRY@
        + texts.retry@
        + BEFORE_DOWNLOAD_GUI_LOG@
        + texts.download_gui_log@
        + BEFORE_DOWNLOAD_LAUNCHER_LOG@
        + texts.download_launcher_log@
        + BEFORE_TITLEBAR_SCRIPT@
        + titlebar_script
        + BEFORE_I18N_JSON@
}

/// The page behind the texts for its script, where the values for the script are given.
pub open spec fn after_texts(
    port: u16,
    backend_url_json: Seq<char>,
    error_detail_json: Seq<char>,
    texts: ErrorPageTexts,
) -> Seq<char> {
    BEFORE_BACKEND_URL_JSON@
        + backend_url_json
        + BEFORE_ERROR_DETAIL_JSON@
        + error_detail_json
        + BEFORE_PORT@
        + text::decimal(port as nat)
        + BEFORE_GUI_LOG_LABEL@
        + texts.download_gui_log@
        + BEFORE_LAUNCHER_LOG_LABEL@
        + texts.download_launcher_log@
        + PAGE_END@
}

/// The page for a backend on `port`, where the scripts and the values for them are given as they
/// stand in it. None of them is searched for marks of the page's own.
pub open spec fn filled_page(
    port: u16,
    titlebar_script: Seq<char>,
    i18n_json: Seq<char>,
    backend_url_json: Seq<char>,
    error_detail_json: Seq<char>,
    texts: ErrorPageTexts,
) -> Seq<char> {
    until_texts(titlebar_script, texts) + i18n_json + after_texts(
        port,
        backend_url_json,
        error_detail_json,
        texts,
    )
}

/// The page that says that the backend on `port` cannot be reached, and why.
pub open spec fn error_page(port: u16, detail: Seq<char>, texts: ErrorPageTexts, macos: bool) -> Seq<
    char,
> {
    filled_page(
        port,
        titlebar::script(texts.titlebar, macos),
        json::object_text(texts.phrases()),
        json::string_text(backend::url_text(port)),
        json::string_text(detail),
        texts,
    )
}

/// The page for a backend on `port`, where the scripts and the values for them are given as they
/// stand in it.
pub fn fill_error_page(
    port: u16,
    titlebar_script: &str,
    i18n_json: &str,
    backend_url_json: &str,
    error_detail_json: &str,
    texts: &ErrorPageTexts,
) -> (r: String)
    ensures
        r@ == filled_page(
            port,
            titlebar_script@,
            i18n_json@,
            backend_url_json@,
            error_detail_json@,
            *texts,
        ),
{
    let port_text: String = strings::decimal_string(port as u64);
    let mut page: String = BEFORE_TITLE.to_owned();
    page.append(texts.title.as_str());
    page.append(BEFORE_HEADING);
    page.append(texts.heading.as_str());
    page.append(BEFORE_DESCRIPTION);
    page.append(texts.description.as_str());
    page.append(BEFORE_CONNECTION_INFO);
    page.append(texts.connection_info.as_str());
    page.append(BEFORE_ADDRESS);
    page.append(texts.address.as_str());
    page.append(BEFORE_ERROR_LABEL);
    page.append(texts.error_label.as_str());
    page.append(BEFORE_RETRY);
    page.append(texts.retry.as_str());
    page.append(BEFORE_DOWNLOAD_GUI_LOG);
    page.append(texts.download_gui_log.as_str());
    page.append(BEFORE_DOWNLOAD_LAUNCHER_LOG);
    page.append(texts.download_launcher_log.as_str());
    page.append(BEFORE_TITLEBAR_SCRIPT);
    page.append(titlebar_script);
    page.append(BEFORE_I18N_JSON);
    page.append(i18n_json);
    let mut rest: String = BEFORE_BACKEND_URL_JSON.to_owned();
    rest.append(backend_url_json);
    rest.append(BEFORE_ERROR_DETAIL_JSON);
    rest.append(error_detail_json);
    rest.append(BEFORE_PORT);
    rest.append(port_text.as_str());
    rest.append(BEFORE_GUI_LOG_LABEL);
    rest.append(texts.download_gui_log.as_str());
    rest.append(BEFORE_LAUNCHER_LOG_LABEL);
    rest.append(texts.download_launcher_log.as_str());
    rest.append(PAGE_END);
    page.append(rest.as_str());
    page
}

/// The page that says that the backend on `port` cannot be reached, and why.
pub fn backend_error_html(port: u16, error_detail: &str, texts: &ErrorPageTexts, macos: bool) -> (r:
    String)
    ensures
        r@ == error_page(port, error_detail@, *texts, macos),
        json::holds_all(r@, texts.phrases()),
{
    let backend_url_json = json::string(backend::backend_url(port).as_str());
    let error_detail_json = json::string(error_detail);
    let titlebar_script = titlebar::main_window_titlebar_injection_script(&texts.titlebar, macos);
    let i18n_json = json::object(&texts.fields());
    proof {
        texts.names_differ();
        json::lemma_holds_all_within(
            until_texts(titlebar_script@, *texts),
            i18n_json@,
            after_texts(port, backend_url_json@, error_detail_json@, *texts),
            texts.phrases(),
        );
    }
    fill_error_page(
        port,
        titlebar_script.as_str(),
        i18n_json.as_str(),
        backend_url_json.as_str(),
        error_detail_json.as_str(),
        texts,
    )
}

/// The script of the page knows the address of the backend, the error and the port, each under its
/// own name and as it was given.
pub proof fn the_page_knows_what_failed(
    port: u16,
    detail: Seq<char>,
    texts: ErrorPageTexts,
    macos: bool,
)
    ensures
        text::contains(
            error_page(port, detail, texts, macos),
            "const backendUrl = "@ + json::string_text(backend::url_text(port)),
        ),
        text::contains(
            error_page(port, detail, texts, macos),
            "const errorDetail = "@ + json::string_text(detail),
        ),
        text::contains(
            error_page(port, detail, texts, macos),
            "const port = "@ + text::decimal(port as nat),
        ),
{
    let url = json::string_text(backend::url_text(port));
    let error = json::string_text(detail);
    let number = text::decimal(port as nat);
    lemma_names_of_values();
    let front = until_texts(titlebar::script(texts.titlebar, macos), texts) + json::object_text(
        texts.phrases(),
    );
    let after = after_texts(port, url, error, texts);
    let q1 = BEFORE_BACKEND_URL_JSON@ + url;
    let q2 = q1 + BEFORE_ERROR_DETAIL_JSON@;
    let q3 = q2 + error;
    let q4 = q3 + BEFORE_PORT@;
    let q5 = q4 + number;
    let q6 = q5 + BEFORE_GUI_LOG_LABEL@;
    let q7 = q6 + texts.download_gui_log@;
    let q8 = q7 + BEFORE_LAUNCHER_LOG_LABEL@;
    let q9 = q8 + texts.download_launcher_log@;
    assert(after == q9 + PAGE_END@);
    assert(after.take(after.len() as int) =~= after);
    lemma_shorter_prefix(q9, PAGE_END@, after);
    lemma_shorter_prefix(q8, texts.download_launcher_log@, after);
    lemma_shorter_prefix(q7, BEFORE_LAUNCHER_LOG_LABEL@, after);
    lemma_shorter_prefix(q6, texts.download_gui_log@, after);
    lemma_shorter_prefix(q5, BEFORE_GUI_LOG_LABEL@, after);
    lemma_shorter_prefix(q4, number, after);
    lemma_shorter_prefix(q3, BEFORE_PORT@, after);
    lemma_shorter_prefix(q2, error, after);
    lemma_shorter_prefix(q1, BEFORE_ERROR_DETAIL_JSON@, after);
    lemma_first_behind(BEFORE_BACKEND_URL_JSON@, "const backendUrl = "@, url);
    lemma_behind(q1, BEFORE_ERROR_DETAIL_JSON@, "const errorDetail = "@, error);
    lemma_behind(q3, BEFORE_PORT@, "const port = "@, number);
    lemma_in_prefix(after, q1, "const backendUrl = "@ + url);
    lemma_in_prefix(after, q3, "const errorDetail = "@ + error);
    lemma_in_prefix(after, q5, "const port = "@ + number);
    lemma_in_rest(front, after, "const backendUrl = "@ + url);
    lemma_in_rest(front, after, "const errorDetail = "@ + error);
    lemma_in_rest(front, after, "const port = "@ + number);
}

/// Each value stands behind its name.
proof fn lemma_names_of_values()
    ensures
        "const backendUrl = "@.is_suffix_of(BEFORE_BACKEND_URL_JSON@),
        "const errorDetail = "@.is_suffix_of(BEFORE_ERROR_DETAIL_JSON@),
        "const port = "@.is_suffix_of(BEFORE_PORT@),
{
    reveal_strlit("const backendUrl = ");
    reveal_strlit("const errorDetail = ");
    reveal_strlit("const port = ");
    reveal_strlit(r#";
    const backendUrl = "#);
    reveal_strlit(r#";
    const errorDetail = "#);
    reveal_strlit(r#";
    const port = "#);
    let (a, b, c) = (BEFORE_BACKEND_URL_JSON@, BEFORE_ERROR_DETAIL_JSON@, BEFORE_PORT@);
    assert(a.subrange(a.len() - 19, a.len() as int) =~= "const backendUrl = "@);
    assert(b.subrange(b.len() - 20, b.len() as int) =~= "const errorDetail = "@);
    assert(c.subrange(c.len() - 13, c.len() as int) =~= "const port = "@);
}

/// What has a longer start has the shorter one.
proof fn lemma_shorter_prefix(s: Seq<char>, more: Seq<char>, page: Seq<char>)
    requires
        text::starts_with(page, s + more),
    ensures
        text::starts_with(page, s),
{
    assert(page.take(s.len() as int) =~= s) by {
        assert forall|i: int| 0 <= i < s.len() implies page[i] == s[i] by {
            assert(page.take((s + more).len() as int)[i] == (s + more)[i]);
        }
    }
}

proof fn lemma_in_prefix(page: Seq<char>, s: Seq<char>, t: Seq<char>)
    requires
        text::starts_with(page, s),
        text::contains(s, t),
    ensures
        text::contains(page, t),
{
    text::lemma_contains_within(Seq::empty(), s, page.skip(s.len() as int), t);
    assert(Seq::empty() + s + page.skip(s.len() as int) =~= page);
}

proof fn lemma_in_rest(front: Seq<char>, rest: Seq<char>, t: Seq<char>)
    requires
        text::contains(rest, t),
    ensures
        text::contains(front + rest, t),
{
    text::lemma_contains_within(front, rest, Seq::empty(), t);
    assert(front + rest + Seq::empty() =~= front + rest);
}

/// A value stands behind what its label ends with.
proof fn lemma_behind(start: Seq<char>, label: Seq<char>, name: Seq<char>, value: Seq<char>)
    requires
        name.is_suffix_of(label),
    ensures
        text::contains(start + label + value, name + value),
{
    let page = start + label + value;
    let what = name + value;
    let n = start.len() + label.len() - name.len();
    assert forall|i: int| 0 <= i < what.len() implies page[n + i] == what[i] by {
        if i < name.len() {
            assert(label.subrange(label.len() - name.len(), label.len() as int)[i] == name[i]);
        }
    }
    assert(page.subrange(n, n + what.len()) =~= what);
    assert(text::occurs_at(page, what, n));
}

proof fn lemma_first_behind(label: Seq<char>, name: Seq<char>, value: Seq<char>)
    requires
        name.is_suffix_of(label),
    ensures
        text::contains(label + value, name + value),
{
    lemma_behind(Seq::empty(), label, name, value);
    assert(Seq::empty() + label + value =~= label + value);
}

/// A value stands before what the label behind it starts with.
proof fn lemma_before(start: Seq<char>, value: Seq<char>, label: Seq<char>, name: Seq<char>)
    requires
        text::starts_with(label, name),
    ensures
        text::contains(start + value + label, value + name),
{
    let page = start + value + label;
    let what = value + name;
    let n = start.len() as int;
    assert forall|i: int| 0 <= i < what.len() implies page[n + i] == what[i] by {
        if i >= value.len() {
            assert(label.take(name.len() as int)[i - value.len()] == name[i - value.len()]);
        }
    }
    assert(page.subrange(n, n + what.len()) =~= what);
    assert(text::occurs_at(page, what, n));
}

/// The texts stand in the places that they are for: the title in the title, the heading, the
/// description and the labels in theirs, and the text of each button in that button.
pub proof fn each_text_stands_in_its_place(
    port: u16,
    detail: Seq<char>,
    texts: ErrorPageTexts,
    macos: bool,
)
    ensures
        ({
            let page = error_page(port, detail, texts, macos);
            &&& text::contains(page, "<title>"@ + texts.title@)
            &&& text::contains(page, texts.heading@ + "</h1>"@)
            &&& text::contains(page, "<p class=\"lead\">"@ + texts.description@)
            &&& text::contains(page, "aria-label=\""@ + texts.connection_info@)
            &&& text::contains(
                page,
                texts.address@ + "</div>\n        <div id=\"backend-url\""@,
            )
            &&& text::contains(
                page,
                texts.error_label@ + "</div>\n        <div id=\"error-detail\""@,
            )
            &&& text::contains(
                page,
                "<button id=\"retry-button\" class=\"action-button\" type=\"button\">"@
                    + texts.retry@,
            )
            &&& text::contains(
                page,
                "<button id=\"gui-log-button\" class=\"action-button\" type=\"button\">"@
                    + texts.download_gui_log@,
            )
            &&& text::contains(
                page,
                "<button id=\"launcher-log-button\" class=\"action-button\" type=\"button\">"@
                    + texts.download_launcher_log@,
            )
        }),
{
    lemma_places();
    let page = error_page(port, detail, texts, macos);
    let script = titlebar::script(texts.titlebar, macos);
    let texts_json = json::object_text(texts.phrases());
    let after = after_texts(
        port,
        json::string_text(backend::url_text(port)),
        json::string_text(detail),
        texts,
    );
    let q1 = BEFORE_TITLE@ + texts.title@;
    let q2 = q1 + BEFORE_HEADING@;
    let q3 = q2 + texts.heading@;
    let q4 = q3 + BEFORE_DESCRIPTION@;
    let q5 = q4 + texts.description@;
    let q6 = q5 + BEFORE_CONNECTION_INFO@;
    let q7 = q6 + texts.connection_info@;
    let q8 = q7 + BEFORE_ADDRESS@;
    let q9 = q8 + texts.address@;
    let q10 = q9 + BEFORE_ERROR_LABEL@;
    let q11 = q10 + texts.error_label@;
    let q12 = q11 + BEFORE_RETRY@;
    let q13 = q12 + texts.retry@;
    let q14 = q13 + BEFORE_DOWNLOAD_GUI_LOG@;
    let q15 = q14 + texts.download_gui_log@;
    let q16 = q15 + BEFORE_DOWNLOAD_LAUNCHER_LOG@;
    let q17 = q16 + texts.download_launcher_log@;
    let q18 = q17 + BEFORE_TITLEBAR_SCRIPT@;
    let q19 = q18 + script;
    let q20 = q19 + BEFORE_I18N_JSON@;
    let q21 = q20 + texts_json;
    assert(page == q21 + after);
    assert(page.take(page.len() as int) =~= page);
    lemma_shorter_prefix(q21, after, page);
    lemma_shorter_prefix(q20, texts_json, page);
    lemma_shorter_prefix(q19, BEFORE_I18N_JSON@, page);
    lemma_shorter_prefix(q18, script, page);
    lemma_shorter_prefix(q17, BEFORE_TITLEBAR_SCRIPT@, page);
    lemma_shorter_prefix(q16, texts.download_launcher_log@, page);
    lemma_shorter_prefix(q15, BEFORE_DOWNLOAD_LAUNCHER_LOG@, page);
    lemma_shorter_prefix(q14, texts.download_gui_log@, page);
    lemma_shorter_prefix(q13, BEFORE_DOWNLOAD_GUI_LOG@, page);
    lemma_shorter_prefix(q12, texts.retry@, page);
    lemma_shorter_prefix(q11, BEFORE_RETRY@, page);
    lemma_shorter_prefix(q10, texts.error_label@, page);
    lemma_shorter_prefix(q9, BEFORE_ERROR_LABEL@, page);
    lemma_shorter_prefix(q8, texts.address@, page);
    lemma_shorter_prefix(q7, BEFORE_ADDRESS@, page);
    lemma_shorter_prefix(q6, texts.connection_info@, page);
    lemma_shorter_prefix(q5, BEFORE_CONNECTION_INFO@, page);
    lemma_shorter_prefix(q4, texts.description@, page);
    lemma_shorter_prefix(q3, BEFORE_DESCRIPTION@, page);
    lemma_shorter_prefix(q2, texts.heading@, page);
    lemma_shorter_prefix(q1, BEFORE_HEADING@, page);
    lemma_first_behind(BEFORE_TITLE@, "<title>"@, texts.title@);
    lemma_in_prefix(page, q1, "<title>"@ + texts.title@);
    lemma_before(q2, texts.heading@, BEFORE_DESCRIPTION@, "</h1>"@);
    lemma_in_prefix(page, q4, texts.heading@ + "</h1>"@);
    lemma_behind(q3, BEFORE_DESCRIPTION@, "<p class=\"lead\">"@, texts.description@);
    lemma_in_prefix(page, q5, "<p class=\"lead\">"@ + texts.description@);
    lemma_behind(q5, BEFORE_CONNECTION_INFO@, "aria-label=\""@, texts.connection_info@);
    lemma_in_prefix(page, q7, "aria-label=\""@ + texts.connection_info@);
    lemma_before(q8, texts.address@, BEFORE_ERROR_LABEL@, "</div>\n        <div id=\"backend-url\""@);
    lemma_in_prefix(page, q10, texts.address@ + "</div>\n        <div id=\"backend-url\""@);
    lemma_before(q10, texts.error_label@, BEFORE_RETRY@, "</div>\n        <div id=\"error-detail\""@);
    lemma_in_prefix(page, q12, texts.error_label@ + "</div>\n        <div id=\"error-detail\""@);
    lemma_behind(q11, BEFORE_RETRY@, "<button id=\"retry-button\" class=\"action-button\" type=\"button\">"@, texts.retry@);
    lemma_in_prefix(page, q13, "<button id=\"retry-button\" class=\"action-button\" type=\"button\">"@ + texts.retry@);
    lemma_behind(q13, BEFORE_DOWNLOAD_GUI_LOG@, "<button id=\"gui-log-button\" class=\"action-button\" type=\"button\">"@, texts.download_gui_log@);
    lemma_in_prefix(page, q15, "<button id=\"gui-log-button\" class=\"action-button\" type=\"button\">"@ + texts.download_gui_log@);
    lemma_behind(q15, BEFORE_DOWNLOAD_LAUNCHER_LOG@, "<button id=\"launcher-log-button\" class=\"action-button\" type=\"button\">"@, texts.download_launcher_log@);
    lemma_in_prefix(page, q17, "<button id=\"launcher-log-button\" class=\"action-button\" type=\"button\">"@ + texts.download_launcher_log@);
}

/// What stands around each of the places.
proof fn lemma_places()
    ensures
        "<title>"@.is_suffix_of(BEFORE_TITLE@),
        text::starts_with(BEFORE_DESCRIPTION@, "</h1>"@),
        "<p class=\"lead\">"@.is_suffix_of(BEFORE_DESCRIPTION@),
        "aria-label=\""@.is_suffix_of(BEFORE_CONNECTION_INFO@),
        text::starts_with(BEFORE_ERROR_LABEL@, "</div>\n        <div id=\"backend-url\""@),
        text::starts_with(BEFORE_RETRY@, "</div>\n        <div id=\"error-detail\""@),
        "<button id=\"retry-button\" class=\"action-button\" type=\"button\">"@.is_suffix_of(BEFORE_RETRY@),
        "<button id=\"gui-log-button\" class=\"action-button\" type=\"button\">"@.is_suffix_of(BEFORE_DOWNLOAD_GUI_LOG@),
        "<button id=\"launcher-log-button\" class=\"action-button\" type=\"button\">"@.is_suffix_of(BEFORE_DOWNLOAD_LAUNCHER_LOG@),
{
    assert("<title>"@.is_suffix_of(BEFORE_TITLE@)) by {
        reveal_strlit("<title>");
        reveal_strlit(r#"<!doctype html>
<html>
<head>
<meta charset="utf-8">
<meta name="viewport" content="width=device-width, initial-scale=1">
<title>"#);
        assert(BEFORE_TITLE@.subrange(122, 129) =~= "<title>"@);
    }
    assert(text::starts_with(BEFORE_DESCRIPTION@, "</h1>"@)) by {
        reveal_strlit("</h1>");
        reveal_strlit(r#"</h1>
    <p class="lead">"#);
        assert(BEFORE_DESCRIPTION@.take(5) =~= "</h1>"@);
    }
    assert("<p class=\"lead\">"@.is_suffix_of(BEFORE_DESCRIPTION@)) by {
        reveal_strlit("<p class=\"lead\">");
        reveal_strlit(r#"</h1>
    <p class="lead">"#);
        assert(BEFORE_DESCRIPTION@.subrange(10, 26) =~= "<p class=\"lead\">"@);
    }
    assert("aria-label=\""@.is_suffix_of(BEFORE_CONNECTION_INFO@)) by {
        reveal_strlit("aria-label=\"");
        reveal_strlit(r#"</p>
    <section class="details" aria-label=""#);
        assert(BEFORE_CONNECTION_INFO@.subrange(34, 46) =~= "aria-label=\""@);
    }
    assert(text::starts_with(BEFORE_ERROR_LABEL@, "</div>\n        <div id=\"backend-url\""@)) by {
        reveal_strlit("</div>\n        <div id=\"backend-url\"");
        reveal_strlit(r#"</div>
        <div id="backend-url" class="value"></div>
      </div>
      <div class="row">
        <div class="label">"#);
        assert(BEFORE_ERROR_LABEL@.take(36) =~= "</div>\n        <div id=\"backend-url\""@);
    }
    assert(text::starts_with(BEFORE_RETRY@, "</div>\n        <div id=\"error-detail\""@)) by {
        reveal_strlit("</div>\n        <div id=\"error-detail\"");
        reveal_strlit(r#"</div>
        <div id="error-detail" class="value"></div>
      </div>
    </section>
    <div class="actions">
      <button id="retry-button" class="action-button" type="button">"#);
        assert(BEFORE_RETRY@.take(37) =~= "</div>\n        <div id=\"error-detail\""@);
    }
    assert("<button id=\"retry-button\" class=\"action-button\" type=\"button\">"@.is_suffix_of(BEFORE_RETRY@)) by {
        reveal_strlit("<button id=\"retry-button\" class=\"action-button\" type=\"button\">");
        reveal_strlit(r#"</div>
        <div id="error-detail" class="value"></div>
      </div>
    </section>
    <div class="actions">
      <button id="retry-button" class="action-button" type="button">"#);
        assert(BEFORE_RETRY@.subrange(119, 181) =~= "<button id=\"retry-button\" class=\"action-button\" type=\"button\">"@);
    }
    assert("<button id=\"gui-log-button\" class=\"action-button\" type=\"button\">"@.is_suffix_of(BEFORE_DOWNLOAD_GUI_LOG@)) by {
        reveal_strlit("<button id=\"gui-log-button\" class=\"action-button\" type=\"button\">");
        reveal_strlit(r#"</button>
      <button id="gui-log-button" class="action-button" type="button">"#);
        assert(BEFORE_DOWNLOAD_GUI_LOG@.subrange(16, 80) =~= "<button id=\"gui-log-button\" class=\"action-button\" type=\"button\">"@);
    }
    assert("<button id=\"launcher-log-button\" class=\"action-button\" type=\"button\">"@.is_suffix_of(BEFORE_DOWNLOAD_LAUNCHER_LOG@)) by {
        reveal_strlit("<button id=\"launcher-log-button\" class=\"action-button\" type=\"button\">");
        reveal_strlit(r#"</button>
      <button id="launcher-log-button" class="action-button" type="button">"#);
        assert(BEFORE_DOWNLOAD_LAUNCHER_LOG@.subrange(16, 85) =~= "<button id=\"launcher-log-button\" class=\"action-button\" type=\"button\">"@);
    }
}

} // verus!
