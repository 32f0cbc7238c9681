//! The scripts that are added to the pages of the main window.

use vstd::prelude::*;

use crate::json;
use crate::strings;
use crate::text;

verus! {

/// The texts of the title bar.
#[derive(Debug)]
pub struct TitlebarTexts {
    pub minimize_to_tray: String,
    pub minimize_window: String,
    pub minimize: String,
    pub maximize_restore_window: String,
    pub maximize: String,
    pub close_window: String,
    pub close: String,
    pub restore: String,
    pub maximize_action: String,
    pub restore_window: String,
    pub maximize_window: String,
}

impl TitlebarTexts {
    /// The texts, each with its name in the script.
    pub open spec fn phrases(self) -> Seq<(Seq<char>, json::FieldValue)> {
        seq![
            ("hideLabel"@, json::FieldValue::Text(self.minimize_to_tray@)),
            ("minimizeLabel"@, json::FieldValue::Text(self.minimize_window@)),
            ("minimizeTitle"@, json::FieldValue::Text(self.minimize@)),
            ("maximizeLabel"@, json::FieldValue::Text(self.maximize_restore_window@)),
            ("maximizeTitle"@, json::FieldValue::Text(self.maximize@)),
            ("closeLabel"@, json::FieldValue::Text(self.close_window@)),
            ("closeTitle"@, json::FieldValue::Text(self.close@)),
            ("restoreTitle"@, json::FieldValue::Text(self.restore@)),
            ("maximizeActionTitle"@, json::FieldValue::Text(self.maximize_action@)),
            ("restoreLabel"@, json::FieldValue::Text(self.restore_window@)),
            ("maximizeLabelText"@, json::FieldValue::Text(self.maximize_window@)),
        ]
    }

    /// Under each name of the script stands the text that it is for, and there is no other.
    pub proof fn each_name_stands_for_its_text(self)
        ensures
            self.phrases().contains(("hideLabel"@, json::FieldValue::Text(self.minimize_to_tray@))),
            self.phrases().contains(("minimizeLabel"@, json::FieldValue::Text(self.minimize_window@))),
            self.phrases().contains(("minimizeTitle"@, json::FieldValue::Text(self.minimize@))),
            self.phrases().contains(("maximizeLabel"@, json::FieldValue::Text(self.maximize_restore_window@))),
            self.phrases().contains(("maximizeTitle"@, json::FieldValue::Text(self.maximize@))),
            self.phrases().contains(("closeLabel"@, json::FieldValue::Text(self.close_window@))),
            self.phrases().contains(("closeTitle"@, json::FieldValue::Text(self.close@))),
            self.phrases().contains(("restoreTitle"@, json::FieldValue::Text(self.restore@))),
            self.phrases().contains(("maximizeActionTitle"@, json::FieldValue::Text(self.maximize_action@))),
            self.phrases().contains(("restoreLabel"@, json::FieldValue::Text(self.restore_window@))),
            self.phrases().contains(("maximizeLabelText"@, json::FieldValue::Text(self.maximize_window@))),
            self.phrases().len() == 11,
    {
        let all = self.phrases();
        assert(all[0] == ("hideLabel"@, json::FieldValue::Text(self.minimize_to_tray@)));
        assert(all[1] == ("minimizeLabel"@, json::FieldValue::Text(self.minimize_window@)));
        assert(all[2] == ("minimizeTitle"@, json::FieldValue::Text(self.minimize@)));
        assert(all[3] == ("maximizeLabel"@, json::FieldValue::Text(self.maximize_restore_window@)));
        assert(all[4] == ("maximizeTitle"@, json::FieldValue::Text(self.maximize@)));
        assert(all[5] == ("closeLabel"@, json::FieldValue::Text(self.close_window@)));
        assert(all[6] == ("closeTitle"@, json::FieldValue::Text(self.close@)));
        assert(all[7] == ("restoreTitle"@, json::FieldValue::Text(self.restore@)));
        assert(all[8] == ("maximizeActionTitle"@, json::FieldValue::Text(self.maximize_action@)));
        assert(all[9] == ("restoreLabel"@, json::FieldValue::Text(self.restore_window@)));
        assert(all[10] == ("maximizeLabelText"@, json::FieldValue::Text(self.maximize_window@)));
    }

    /// Each text has a name of its own in the script.
    pub proof fn names_differ(self)
        ensures
            json::names_differ(self.phrases()),
    {
        reveal_strlit("hideLabel");
        reveal_strlit("minimizeLabel");
        reveal_strlit("minimizeTitle");
        reveal_strlit("maximizeLabel");
        reveal_strlit("maximizeTitle");
        reveal_strlit("closeLabel");
        reveal_strlit("closeTitle");
        reveal_strlit("restoreTitle");
        reveal_strlit("maximizeActionTitle");
        reveal_strlit("restoreLabel");
        reveal_strlit("maximizeLabelText");
        let names = self.phrases();
        assert forall|i: int, j: int| 0 <= i < j < names.len() implies (#[trigger] names[i]).0 != (
        #[trigger] names[j]).0 by {
            let (a, b) = (names[i].0, names[j].0);
            assert(a.len() != b.len() || a[1] != b[1] || a[5] != b[5] || a[7] != b[7] || a[8] != b[8]);
        }
    }

    fn fields(&self) -> (r: Vec<json::Field>)
        ensures
            json::views(r@) == self.phrases(),
    {
        let mut fields: Vec<json::Field> = Vec::new();
        fields.push(json::text_field("hideLabel", self.minimize_to_tray.as_str()));
        fields.push(json::text_field("minimizeLabel", self.minimize_window.as_str()));
        fields.push(json::text_field("minimizeTitle", self.minimize.as_str()));
        fields.push(json::text_field("maximizeLabel", self.maximize_restore_window.as_str()));
        fields.push(json::text_field("maximizeTitle", self.maximize.as_str()));
        fields.push(json::text_field("closeLabel", self.close_window.as_str()));
        fields.push(json::text_field("closeTitle", self.close.as_str()));
        fields.push(json::text_field("restoreTitle", self.restore.as_str()));
        fields.push(json::text_field("maximizeActionTitle", self.maximize_action.as_str()));
        fields.push(json::text_field("restoreLabel", self.restore_window.as_str()));
        fields.push(json::text_field("maximizeLabelText", self.maximize_window.as_str()));
        assert(json::views(fields@) =~= self.phrases());
        fields
    }
}

/// The script behind the texts.
pub const TITLEBAR_SCRIPT: &'static str = r#";
        const invoke =
            (window.__TAURI__ && window.__TAURI__.core && window.__TAURI__.core.invoke)
            || (window.__TAURI_INTERNALS__ && window.__TAURI_INTERNALS__.invoke);
        if (typeof invoke !== 'function') {
            return;
        }
        const ensureTitlebar = () => {
            if (!document.body || document.getElementById('alas-launcher-titlebar')) {
                return;
            }
            if (!document.getElementById('alas-launcher-titlebar-style')) {
                const style = document.createElement('style');
                style.id = 'alas-launcher-titlebar-style';
                style.textContent = ':root{--alas-titlebar-height:44px}#alas-launcher-titlebar{position:fixed;top:0;left:0;right:0;height:var(--alas-titlebar-height);z-index:2147483647;user-select:none;pointer-events:none;background:transparent}#alas-launcher-titlebar *{box-sizing:border-box}.alas-titlebar-drag-zone{position:absolute;inset:0 120px 0 0;height:100%;pointer-events:auto;background:transparent}.header-icon{display:flex;align-items:center;gap:8px;padding:0 12px;position:absolute;top:0;right:0;height:100%;pointer-events:auto}.icon{width:12px;height:12px;border-radius:50%;border:none;cursor:pointer;flex:0 0 auto;position:relative;transition:filter 120ms ease;display:inline-flex;align-items:center;justify-content:center}.icon:active{filter:brightness(0.85)}.icon-hide{background:#3b82f6;box-shadow:0 0 0 .5px #2563eb}.icon-close{background:#ff5f57;box-shadow:0 0 0 .5px #e0443e}.icon-minimize{background:#febc2e;box-shadow:0 0 0 .5px #d4a017}.icon-maximize{background:#28c840;box-shadow:0 0 0 .5px #14ae35}.icon svg{width:7px;height:7px;stroke:rgba(0,0,0,.72);fill:none;stroke-width:1.35;stroke-linecap:round;stroke-linejoin:round;opacity:0;transition:opacity 150ms ease}.header-icon:hover .icon svg{opacity:1}@media(max-width:680px){.alas-titlebar-drag-zone{inset-right:88px}}';
                document.head.appendChild(style);
            }
            const titlebar = document.createElement('div');
            titlebar.id = 'alas-launcher-titlebar';
            titlebar.innerHTML = '<div class="alas-titlebar-drag-zone" aria-hidden="true"></div><div class="header-icon"><button type="button" class="icon icon-hide" data-action="hide" aria-label="'+i18n.hideLabel+'" title="'+i18n.hideLabel+'"><svg viewBox="0 0 6 6"><rect x="1" y="1" width="4" height="4" rx="1"/><path d="M2 3h2"/></svg></button><button type="button" class="icon icon-minimize" data-action="minimize" aria-label="'+i18n.minimizeLabel+'" title="'+i18n.minimizeTitle+'"><svg viewBox="0 0 6 6"><line x1="1" y1="3" x2="5" y2="3"/></svg></button><button type="button" class="icon icon-maximize" data-action="maximize" aria-label="'+i18n.maximizeLabel+'" title="'+i18n.maximizeTitle+'"><svg viewBox="0 0 6 6" class="svg-restore" style="display:none"><polyline points="1,3 1,1 3,1"/><polyline points="3,5 5,5 5,3"/></svg><svg viewBox="0 0 6 6" class="svg-maximize"><polyline points="1,2.5 1,1 2.5,1"/><polyline points="3.5,5 5,5 5,3.5"/></svg></button><button type="button" class="icon icon-close" data-action="close" aria-label="'+i18n.closeLabel+'" title="'+i18n.closeTitle+'"><svg viewBox="0 0 6 6"><line x1="1" y1="1" x2="5" y2="5"/><line x1="5" y1="1" x2="1" y2="5"/></svg></button></div>';
            document.body.dataset.alasCustomTitlebar = 'true';
            document.body.prepend(titlebar);
            const dragZone = titlebar.querySelector('.alas-titlebar-drag-zone');
            const maximizeButton = titlebar.querySelector('[data-action="maximize"]');
            const syncMaximizeState = async () => {
                if (!maximizeButton) return;
                try {
                    const maximized = await invoke('window_is_maximized');
                    maximizeButton.dataset.maximized = maximized ? 'true' : 'false';
                    maximizeButton.title = maximized ? i18n.restoreTitle : i18n.maximizeActionTitle;
                    maximizeButton.setAttribute('aria-label', maximized ? i18n.restoreLabel : i18n.maximizeLabelText);
                    maximizeButton.querySelector('.svg-maximize').style.display = maximized ? 'none' : '';
                    maximizeButton.querySelector('.svg-restore').style.display = maximized ? '' : 'none';
                } catch (e) {
                    console.error('Failed to sync maximize state', e);
                }
            };
            titlebar.querySelectorAll('button[data-action]').forEach(button => {
                button.addEventListener('click', async event => {
                    event.stopPropagation();
                    try {
                        switch (button.dataset.action) {
                            case 'hide': await invoke('window_hide'); break;
                            case 'minimize': await invoke('window_minimize'); break;
                            case 'maximize': await invoke('window_toggle_maximize'); await syncMaximizeState(); break;
                            case 'close': await invoke('window_close'); break;
                        }
                    } catch (error) {
                        console.error('Failed to handle ' + button.dataset.action + ' window action', error);
                    }
                });
            });
            dragZone.addEventListener('mousedown', event => {
                if (event.button !== 0 || event.target.closest('button')) return;
                invoke('window_start_dragging').catch(error => { console.error('Failed to start dragging from titlebar', error); });
            });
            dragZone.addEventListener('dblclick', async event => {
                if (event.target.closest('button')) return;
                try { await invoke('window_toggle_maximize'); await syncMaximizeState(); }
                catch (error) { console.error('Failed to toggle maximize from titlebar', error); }
            });
            window.addEventListener('resize', () => { void syncMaximizeState(); });
            void syncMaximizeState();
        };
        ensureTitlebar();
        if (!document.body) {
            window.addEventListener('DOMContentLoaded', ensureTitlebar, { once: true });
        }
        "#;

/// The mark in the script for a page at which the one for its title bar is put.
pub const TITLEBAR_MARK: &'static str = "__ALAS_TITLEBAR_SCRIPT__";

/// The script for a page up to the script for its title bar.
pub const PAGE_SCRIPT_START: &'static str = r#"
if (!window.alas_launcher_injected) {
    window.alas_launcher_injected = true;
    (function () {
        // Prevent going back
        history.pushState(null, document.title, location.href);
        window.addEventListener('popstate', event => {
            history.pushState(null, document.title, location.href);
        });
        // Overwrite original saveAs function
        window.saveAs = function (blob, filename) {
            const reader = new FileReader();
            reader.onload = async () => {
                const data = reader.result.split(',')[1];
                console.log(data);
                const tauriInvoke =
                    (window.__TAURI__ && window.__TAURI__.core && window.__TAURI__.core.invoke)
                    || (window.__TAURI_INTERNALS__ && window.__TAURI_INTERNALS__.invoke);
                if (typeof tauriInvoke === 'function') {
                    tauriInvoke('save_as', { filename, data });
                }
            };
            reader.readAsDataURL(blob);
        };
"#;

/// The script for a page behind the script for its title bar.
pub const PAGE_SCRIPT_END: &'static str = r#"
    })();
}
"#;

/// The script for a page, with a mark for the script for its title bar.
pub open spec fn page_script() -> Seq<char> {
    PAGE_SCRIPT_START@ + TITLEBAR_MARK@ + PAGE_SCRIPT_END@
}

/// The script that gives a page a title bar. There is none on macOS, where windows keep their own.
pub open spec fn script(texts: TitlebarTexts, macos: bool) -> Seq<char> {
    if macos {
        Seq::empty()
    } else {
        script_with(json::object_text(texts.phrases()))
    }
}

/// The script that gives a page a title bar with these texts, written in JSON.
pub open spec fn script_with(i18n_json: Seq<char>) -> Seq<char> {
    "const i18n = "@ + i18n_json + TITLEBAR_SCRIPT@
}

/// The script that gives a page a title bar with these texts, written in JSON.
pub fn titlebar_script_with(i18n_json: &str) -> (r: String)
    ensures
        r@ == script_with(i18n_json@),
{
    let mut s: String = "const i18n = ".to_owned();
    s.append(i18n_json);
    s.append(TITLEBAR_SCRIPT);
    s
}

/// The script that gives a page a title bar.
pub fn main_window_titlebar_injection_script(texts: &TitlebarTexts, macos: bool) -> (r: String)
    ensures
        r@ == script(*texts, macos),
        !macos ==> json::holds_all(r@, texts.phrases()),
{
    if macos {
        return String::new();
    }
    let i18n_json = json::object(&texts.fields());
    proof {
        texts.names_differ();
        json::lemma_holds_all_within(
            "const i18n = "@,
            i18n_json@,
            TITLEBAR_SCRIPT@,
            texts.phrases(),
        );
    }
    titlebar_script_with(i18n_json.as_str())
}

/// The script for a page with this script for its title bar.
pub fn page_script_with(titlebar_script: &str) -> (r: String)
    ensures
        r@ == text::replace(page_script(), TITLEBAR_MARK@, titlebar_script@),
        text::contains(r@, titlebar_script@),
{
    proof {
        reveal_strlit("__ALAS_TITLEBAR_SCRIPT__");
        text::lemma_contains_itself(TITLEBAR_MARK@);
        text::lemma_contains_within(
            PAGE_SCRIPT_START@,
            TITLEBAR_MARK@,
            PAGE_SCRIPT_END@,
            TITLEBAR_MARK@,
        );
        text::lemma_contains_itself(titlebar_script@);
        text::lemma_replace_puts_in(
            page_script(),
            TITLEBAR_MARK@,
            titlebar_script@,
            titlebar_script@,
        );
    }
    let mut page: String = PAGE_SCRIPT_START.to_owned();
    page.append(TITLEBAR_MARK);
    page.append(PAGE_SCRIPT_END);
    strings::string_of(
        &strings::replaced(&strings::chars_of(page.as_str()), TITLEBAR_MARK, titlebar_script),
    )
}

/// The script that is run in each page that the main window has loaded.
pub fn page_load_injector(texts: &TitlebarTexts, macos: bool) -> (r: String)
    ensures
        r@ == text::replace(page_script(), TITLEBAR_MARK@, script(*texts, macos)),
        text::contains(r@, script(*texts, macos)),
{
    page_script_with(main_window_titlebar_injection_script(texts, macos).as_str())
}

} // verus!
