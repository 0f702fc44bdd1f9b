//! Interface languages: the stored setting, tray-menu labels, the language
//! submenu, tray-menu dispatch, and the script that tells the web views about
//! a language change.

use vstd::prelude::*;
use vstd::string::StringExecFns;
use crate::json_text::{json_string_text, json_string_value, lemma_json_string_round_trip};
use crate::text::{
    chars_of, has_prefix, starts_with_chars, strip_prefix_repeatedly, strip_repeated_prefix,
    text_eq, trim_padding, trimmed, strip_leading_padding, strip_trailing_padding, is_padding,
};

verus! {

// ---------------------------------------------------------------------------
// Supported languages and the stored setting

/// The language codes the interface supports.
pub open spec fn supported_languages() -> Seq<Seq<char>> {
    seq![
        "zh-CN"@,
        "zh-TW"@,
        "en"@,
        "ja"@,
        "ko"@,
        "es"@,
        "fr"@,
        "de"@,
        "pt-BR"@,
        "ru"@,
    ]
}

pub open spec fn is_supported_language(code: Seq<char>) -> bool {
    supported_languages().contains(code)
}

/// The language used when none is stored or the stored one is not supported.
pub open spec fn default_language() -> Seq<char> {
    "zh-CN"@
}

/// The language a stored setting selects: the stored text without padding at
/// either end when that is a supported code, else the default.
pub open spec fn stored_language(stored: Option<Seq<char>>) -> Seq<char> {
    match stored {
        Some(s) => if is_supported_language(trim_padding(s)) {
            trim_padding(s)
        } else {
            default_language()
        },
        None => default_language(),
    }
}

/// Whether `code` is a supported language code.
pub fn is_supported_language_code(code: &str) -> (r: bool)
    ensures
        r == is_supported_language(code@),
{
    let codes: [&str; 10] = ["zh-CN", "zh-TW", "en", "ja", "ko", "es", "fr", "de", "pt-BR", "ru"];
    let mut i: usize = 0;
    while i < 10
        invariant
            i <= 10,
            codes@ == seq!["zh-CN", "zh-TW", "en", "ja", "ko", "es", "fr", "de", "pt-BR", "ru"],
            forall|j: int| 0 <= j < i ==> supported_languages()[j] != code@,
        decreases 10 - i,
    {
        assert(codes@[i as int]@ == supported_languages()[i as int]);
        if text_eq(codes[i], code) {
            assert(supported_languages()[i as int] == code@);
            return true;
        }
        i = i + 1;
    }
    assert forall|j: int| 0 <= j < supported_languages().len() implies supported_languages()[j]
        != code@ by {}
    false
}

/// The interface language for the stored setting (`None` when nothing could be read).
pub fn language_from_stored(stored: Option<String>) -> (r: String)
    ensures
        r@ == stored_language(
            match stored {
                Some(s) => Some(s@),
                None => None,
            },
        ),
{
    match stored {
        Some(s) => {
            let t = trimmed(s.as_str());
            if is_supported_language_code(t.as_str()) {
                t
            } else {
                String::from_str("zh-CN")
            }
        },
        None => String::from_str("zh-CN"),
    }
}

proof fn lemma_code_has_no_padding(code: Seq<char>)
    requires
        is_supported_language(code),
    ensures
        trim_padding(code) == code,
{
    reveal_strlit("zh-CN");
    reveal_strlit("zh-TW");
    reveal_strlit("en");
    reveal_strlit("ja");
    reveal_strlit("ko");
    reveal_strlit("es");
    reveal_strlit("fr");
    reveal_strlit("de");
    reveal_strlit("pt-BR");
    reveal_strlit("ru");
    assert(strip_leading_padding(code) == code);
    assert(strip_trailing_padding(code) == code);
}

/// The selected language is always a supported one; storing a supported code
/// and reading it back selects that code; and selecting again from what was
/// selected changes nothing.
pub proof fn lemma_stored_language_round_trip(stored: Option<Seq<char>>, code: Seq<char>)
    ensures
        is_supported_language(stored_language(stored)),
        is_supported_language(code) ==> stored_language(Some(code)) == code,
        stored_language(Some(stored_language(stored))) == stored_language(stored),
{
    assert(supported_languages()[0] == default_language());
    if is_supported_language(code) {
        lemma_code_has_no_padding(code);
    }
    lemma_code_has_no_padding(stored_language(stored));
}

// ---------------------------------------------------------------------------
// Tray labels

/// The texts of the tray menu.
pub struct TrayLabels {
    pub show: &'static str,
    pub refresh: &'static str,
    pub autostart: &'static str,
    pub language: &'static str,
    pub github: &'static str,
    pub toolbox: &'static str,
    pub quit: &'static str,
}

/// The tray texts as character sequences.
pub struct TrayLabelTexts {
    pub show: Seq<char>,
    pub refresh: Seq<char>,
    pub autostart: Seq<char>,
    pub language: Seq<char>,
    pub github: Seq<char>,
    pub toolbox: Seq<char>,
    pub quit: Seq<char>,
}

impl View for TrayLabels {
    type V = TrayLabelTexts;

    open spec fn view(&self) -> TrayLabelTexts {
        TrayLabelTexts {
            show: self.show@,
            refresh: self.refresh@,
            autostart: self.autostart@,
            language: self.language@,
            github: self.github@,
            toolbox: self.toolbox@,
            quit: self.quit@,
        }
    }
}

pub open spec fn labels(
    show: &str,
    refresh: &str,
    autostart: &str,
    language: &str,
    github: &str,
    toolbox: &str,
    quit: &str,
) -> TrayLabelTexts {
    TrayLabelTexts {
        show: show@,
        refresh: refresh@,
        autostart: autostart@,
        language: language@,
        github: github@,
        toolbox: toolbox@,
        quit: quit@,
    }
}

/// The tray texts for a language; any other code gets the Simplified Chinese texts.
pub open spec fn tray_labels_for(language: Seq<char>) -> TrayLabelTexts {
    if language == "en"@ {
        labels("Show Codex Island", "Refresh now", "Launch at startup", "Language", "GitHub repository", "Feige Toolbox", "Quit Codex Island")
    } else if language == "ja"@ {
        labels("Codex Island を表示", "今すぐ更新", "起動時に実行", "言語", "GitHub リポジトリ", "非哥ツールボックス", "Codex Island を終了")
    } else if language == "ko"@ {
        labels("Codex Island 표시", "지금 새로고침", "시작 시 실행", "언어", "GitHub 저장소", "非哥 도구 상자", "Codex Island 종료")
    } else if language == "zh-TW"@ {
        labels("顯示 Codex Island", "立即重新整理", "開機時啟動", "語言", "GitHub 儲存庫", "非哥工具箱", "結束 Codex Island")
    } else if language == "es"@ {
        labels("Mostrar Codex Island", "Actualizar ahora", "Iniciar con el sistema", "Idioma", "Repositorio de GitHub", "Feige Toolbox", "Salir de Codex Island")
    } else if language == "fr"@ {
        labels("Afficher Codex Island", "Actualiser maintenant", "Lancer au démarrage", "Langue", "Dépôt GitHub", "Feige Toolbox", "Quitter Codex Island")
    } else if language == "de"@ {
        labels("Codex Island anzeigen", "Jetzt aktualisieren", "Beim Start ausführen", "Sprache", "GitHub-Repository", "Feige Toolbox", "Codex Island beenden")
    } else if language == "pt-BR"@ {
        labels("Mostrar Codex Island", "Atualizar agora", "Iniciar com o sistema", "Idioma", "Repositório GitHub", "Feige Toolbox", "Sair do Codex Island")
    } else if language == "ru"@ {
        labels("Показать Codex Island", "Обновить сейчас", "Запускать при старте", "Язык", "Репозиторий GitHub", "Feige Toolbox", "Выйти из Codex Island")
    } else {
        labels("显示 Codex Island", "立即刷新", "开机时启动", "语言", "GitHub 仓库", "非哥工具箱", "退出 Codex Island")
    }
}

/// The tray-menu texts for a language code.
pub fn tray_labels(language: &str) -> (r: TrayLabels)
    ensures
        r@ == tray_labels_for(language@),
{
    if text_eq(language, "en") {
        TrayLabels { show: "Show Codex Island", refresh: "Refresh now", autostart: "Launch at startup", language: "Language", github: "GitHub repository", toolbox: "Feige Toolbox", quit: "Quit Codex Island" }
    } else if text_eq(language, "ja") {
        TrayLabels { show: "Codex Island を表示", refresh: "今すぐ更新", autostart: "起動時に実行", language: "言語", github: "GitHub リポジトリ", toolbox: "非哥ツールボックス", quit: "Codex Island を終了" }
    } else if text_eq(language, "ko") {
        TrayLabels { show: "Codex Island 표시", refresh: "지금 새로고침", autostart: "시작 시 실행", language: "언어", github: "GitHub 저장소", toolbox: "非哥 도구 상자", quit: "Codex Island 종료" }
    } else if text_eq(language, "zh-TW") {
        TrayLabels { show: "顯示 Codex Island", refresh: "立即重新整理", autostart: "開機時啟動", language: "語言", github: "GitHub 儲存庫", toolbox: "非哥工具箱", quit: "結束 Codex Island" }
    } else if text_eq(language, "es") {
        TrayLabels { show: "Mostrar Codex Island", refresh: "Actualizar ahora", autostart: "Iniciar con el sistema", language: "Idioma", github: "Repositorio de GitHub", toolbox: "Feige Toolbox", quit: "Salir de Codex Island" }
    } else if text_eq(language, "fr") {
        TrayLabels { show: "Afficher Codex Island", refresh: "Actualiser maintenant", autostart: "Lancer au démarrage", language: "Langue", github: "Dépôt GitHub", toolbox: "Feige Toolbox", quit: "Quitter Codex Island" }
    } else if text_eq(language, "de") {
        TrayLabels { show: "Codex Island anzeigen", refresh: "Jetzt aktualisieren", autostart: "Beim Start ausführen", language: "Sprache", github: "GitHub-Repository", toolbox: "Feige Toolbox", quit: "Codex Island beenden" }
    } else if text_eq(language, "pt-BR") {
        TrayLabels { show: "Mostrar Codex Island", refresh: "Atualizar agora", autostart: "Iniciar com o sistema", language: "Idioma", github: "Repositório GitHub", toolbox: "Feige Toolbox", quit: "Sair do Codex Island" }
    } else if text_eq(language, "ru") {
        TrayLabels { show: "Показать Codex Island", refresh: "Обновить сейчас", autostart: "Запускать при старте", language: "Язык", github: "Репозиторий GitHub", toolbox: "Feige Toolbox", quit: "Выйти из Codex Island" }
    } else {
        TrayLabels { show: "显示 Codex Island", refresh: "立即刷新", autostart: "开机时启动", language: "语言", github: "GitHub 仓库", toolbox: "非哥工具箱", quit: "退出 Codex Island" }
    }
}

/// Each supported language gets its own tray texts: the pairing of language
/// codes with texts.
pub proof fn lemma_tray_labels_per_language()
    ensures
        tray_labels_for("en"@) == labels("Show Codex Island", "Refresh now", "Launch at startup", "Language", "GitHub repository", "Feige Toolbox", "Quit Codex Island"),
        tray_labels_for("ja"@) == labels("Codex Island を表示", "今すぐ更新", "起動時に実行", "言語", "GitHub リポジトリ", "非哥ツールボックス", "Codex Island を終了"),
        tray_labels_for("ko"@) == labels("Codex Island 표시", "지금 새로고침", "시작 시 실행", "언어", "GitHub 저장소", "非哥 도구 상자", "Codex Island 종료"),
        tray_labels_for("zh-TW"@) == labels("顯示 Codex Island", "立即重新整理", "開機時啟動", "語言", "GitHub 儲存庫", "非哥工具箱", "結束 Codex Island"),
        tray_labels_for("es"@) == labels("Mostrar Codex Island", "Actualizar ahora", "Iniciar con el sistema", "Idioma", "Repositorio de GitHub", "Feige Toolbox", "Salir de Codex Island"),
        tray_labels_for("fr"@) == labels("Afficher Codex Island", "Actualiser maintenant", "Lancer au démarrage", "Langue", "Dépôt GitHub", "Feige Toolbox", "Quitter Codex Island"),
        tray_labels_for("de"@) == labels("Codex Island anzeigen", "Jetzt aktualisieren", "Beim Start ausführen", "Sprache", "GitHub-Repository", "Feige Toolbox", "Codex Island beenden"),
        tray_labels_for("pt-BR"@) == labels("Mostrar Codex Island", "Atualizar agora", "Iniciar com o sistema", "Idioma", "Repositório GitHub", "Feige Toolbox", "Sair do Codex Island"),
        tray_labels_for("ru"@) == labels("Показать Codex Island", "Обновить сейчас", "Запускать при старте", "Язык", "Репозиторий GitHub", "Feige Toolbox", "Выйти из Codex Island"),
        tray_labels_for("zh-CN"@) == labels("显示 Codex Island", "立即刷新", "开机时启动", "语言", "GitHub 仓库", "非哥工具箱", "退出 Codex Island"),
{
    reveal_codes();
}

proof fn reveal_codes()
    ensures
        "zh-CN"@ == seq!['z', 'h', '-', 'C', 'N'],
        "zh-TW"@ == seq!['z', 'h', '-', 'T', 'W'],
        "en"@ == seq!['e', 'n'],
        "ja"@ == seq!['j', 'a'],
        "ko"@ == seq!['k', 'o'],
        "es"@ == seq!['e', 's'],
        "fr"@ == seq!['f', 'r'],
        "de"@ == seq!['d', 'e'],
        "pt-BR"@ == seq!['p', 't', '-', 'B', 'R'],
        "ru"@ == seq!['r', 'u'],
{
    reveal_strlit("zh-CN");
    reveal_strlit("zh-TW");
    reveal_strlit("en");
    reveal_strlit("ja");
    reveal_strlit("ko");
    reveal_strlit("es");
    reveal_strlit("fr");
    reveal_strlit("de");
    reveal_strlit("pt-BR");
    reveal_strlit("ru");
    assert("zh-CN"@ =~= seq!['z', 'h', '-', 'C', 'N']);
    assert("zh-TW"@ =~= seq!['z', 'h', '-', 'T', 'W']);
    assert("en"@ =~= seq!['e', 'n']);
    assert("ja"@ =~= seq!['j', 'a']);
    assert("ko"@ =~= seq!['k', 'o']);
    assert("es"@ =~= seq!['e', 's']);
    assert("fr"@ =~= seq!['f', 'r']);
    assert("de"@ =~= seq!['d', 'e']);
    assert("pt-BR"@ =~= seq!['p', 't', '-', 'B', 'R']);
    assert("ru"@ =~= seq!['r', 'u']);
}

/// Every supported language other than Simplified Chinese has its own texts
/// for showing and quitting the island, not the Simplified-Chinese fallback;
/// a code that is not supported gets the fallback.
pub proof fn lemma_tray_labels_not_fallback(code: Seq<char>)
    ensures
        is_supported_language(code) && code != "zh-CN"@ ==> tray_labels_for(code).show
            != "显示 Codex Island"@ && tray_labels_for(code).quit != "退出 Codex Island"@,
        !is_supported_language(code) ==> tray_labels_for(code) == tray_labels_for("zh-CN"@),
{
    lemma_tray_labels_per_language();
    reveal_codes();
    reveal_strlit("显示 Codex Island");
    reveal_strlit("退出 Codex Island");
    reveal_strlit("Show Codex Island");
    reveal_strlit("Quit Codex Island");
    reveal_strlit("Codex Island を表示");
    reveal_strlit("Codex Island を終了");
    reveal_strlit("Codex Island 표시");
    reveal_strlit("Codex Island 종료");
    reveal_strlit("顯示 Codex Island");
    reveal_strlit("結束 Codex Island");
    reveal_strlit("Mostrar Codex Island");
    reveal_strlit("Salir de Codex Island");
    reveal_strlit("Afficher Codex Island");
    reveal_strlit("Quitter Codex Island");
    reveal_strlit("Codex Island anzeigen");
    reveal_strlit("Codex Island beenden");
    reveal_strlit("Sair do Codex Island");
    reveal_strlit("Показать Codex Island");
    reveal_strlit("Выйти из Codex Island");
    if is_supported_language(code) && code != "zh-CN"@ {
        let s = tray_labels_for(code).show;
        let q = tray_labels_for(code).quit;
        assert(s[0] != "显示 Codex Island"@[0]);
        assert(q[0] != "退出 Codex Island"@[0]);
    }
    if !is_supported_language(code) {
        assert(supported_languages()[2] == "en"@);
        assert(code != "en"@ && code != "ja"@ && code != "ko"@ && code != "zh-TW"@ && code != "es"@
            && code != "fr"@ && code != "de"@ && code != "pt-BR"@ && code != "ru"@) by {
            assert(supported_languages().contains("en"@) ==> code != "en"@);
            assert(supported_languages()[3] == "ja"@ && supported_languages()[4] == "ko"@
                && supported_languages()[1] == "zh-TW"@ && supported_languages()[5] == "es"@
                && supported_languages()[6] == "fr"@ && supported_languages()[7] == "de"@
                && supported_languages()[8] == "pt-BR"@ && supported_languages()[9] == "ru"@);
        }
    }
}

/// The characters of the Unicode `White_Space` property, and the byte-order mark.
pub open spec fn is_white_space_or_bom(c: char) -> bool {
    ||| ('\t' <= c && c <= '\r')
    ||| c == ' '
    ||| c == '\u{85}'
    ||| c == '\u{a0}'
    ||| c == '\u{1680}'
    ||| ('\u{2000}' <= c && c <= '\u{200a}')
    ||| c == '\u{2028}'
    ||| c == '\u{2029}'
    ||| c == '\u{202f}'
    ||| c == '\u{205f}'
    ||| c == '\u{3000}'
    ||| c == '\u{feff}'
}

proof fn lemma_strip_leading_over(p: Seq<char>, s: Seq<char>)
    requires
        forall|k: int| 0 <= k < p.len() ==> is_padding(#[trigger] p[k]),
    ensures
        strip_leading_padding(p + s) == strip_leading_padding(s),
    decreases p.len(),
{
    if p.len() > 0 {
        let t = p + s;
        assert(t[0] == p[0]);
        let p1 = p.subrange(1, p.len() as int);
        assert(t.subrange(1, t.len() as int) =~= p1 + s);
        lemma_strip_leading_over(p1, s);
    } else {
        assert(p + s =~= s);
    }
}

proof fn lemma_strip_trailing_over(s: Seq<char>, p: Seq<char>)
    requires
        forall|k: int| 0 <= k < p.len() ==> is_padding(#[trigger] p[k]),
    ensures
        strip_trailing_padding(s + p) == strip_trailing_padding(s),
    decreases p.len(),
{
    if p.len() > 0 {
        let t = s + p;
        assert(t[t.len() - 1] == p[p.len() - 1]);
        let p1 = p.subrange(0, p.len() - 1);
        assert(t.subrange(0, t.len() - 1) =~= s + p1);
        lemma_strip_trailing_over(s, p1);
    } else {
        assert(s + p =~= s);
    }
}

/// A supported code stored with any white space or byte-order marks around
/// it (a trailing line ending included) selects that code.
pub proof fn lemma_padded_code_is_read(code: Seq<char>, before: Seq<char>, after: Seq<char>)
    requires
        is_supported_language(code),
        forall|k: int| 0 <= k < before.len() ==> is_white_space_or_bom(#[trigger] before[k]),
        forall|k: int| 0 <= k < after.len() ==> is_white_space_or_bom(#[trigger] after[k]),
    ensures
        stored_language(Some(before + code + after)) == code,
{
    reveal_codes();
    assert forall|k: int| 0 <= k < before.len() implies is_padding(#[trigger] before[k]) by {
        assert(is_white_space_or_bom(before[k]));
    }
    assert forall|k: int| 0 <= k < after.len() implies is_padding(#[trigger] after[k]) by {
        assert(is_white_space_or_bom(after[k]));
    }
    let i = choose|i: int| 0 <= i < supported_languages().len() && supported_languages()[i] == code;
    assert(code.len() > 0);
    assert(!is_padding(code[0]) && !is_padding(code[code.len() - 1]));
    let middle = code + after;
    assert(before + code + after =~= before + middle);
    lemma_strip_leading_over(before, middle);
    assert(middle[0] == code[0]);
    assert(strip_leading_padding(middle) == middle);
    lemma_strip_trailing_over(code, after);
    assert(strip_trailing_padding(code) == code);
    assert(trim_padding(before + code + after) == code);
}

// ---------------------------------------------------------------------------
// Language submenu

/// An entry of the language submenu.
pub struct LanguageMenuEntry {
    pub code: &'static str,
    pub label: &'static str,
}

/// The language codes in submenu order.
pub open spec fn menu_language_codes() -> Seq<Seq<char>> {
    seq![
        "zh-CN"@,
        "zh-TW"@,
        "en"@,
        "ja"@,
        "ko"@,
        "es"@,
        "fr"@,
        "de"@,
        "pt-BR"@,
        "ru"@,
    ]
}

/// The submenu labels, each in its own language, in submenu order.
pub open spec fn menu_language_labels() -> Seq<Seq<char>> {
    seq![
        "简体中文"@,
        "繁體中文"@,
        "English"@,
        "日本語"@,
        "한국어"@,
        "Español"@,
        "Français"@,
        "Deutsch"@,
        "Português (Brasil)"@,
        "Русский"@,
    ]
}

/// The prefix of a language item's menu id.
pub open spec fn language_id_prefix() -> Seq<char> {
    "lang-"@
}

/// `label` is the name of the language `code` in that language.
pub open spec fn is_native_name_of(code: Seq<char>, label: Seq<char>) -> bool {
    ||| code == "zh-CN"@ && label == "简体中文"@
    ||| code == "zh-TW"@ && label == "繁體中文"@
    ||| code == "en"@ && label == "English"@
    ||| code == "ja"@ && label == "日本語"@
    ||| code == "ko"@ && label == "한국어"@
    ||| code == "es"@ && label == "Español"@
    ||| code == "fr"@ && label == "Français"@
    ||| code == "de"@ && label == "Deutsch"@
    ||| code == "pt-BR"@ && label == "Português (Brasil)"@
    ||| code == "ru"@ && label == "Русский"@
}

/// Every submenu entry is labelled with the native name of the language its
/// own code selects, and the entries offer exactly the supported languages.
pub proof fn lemma_menu_labels_name_their_language(i: int)
    requires
        0 <= i < 10,
    ensures
        is_native_name_of(menu_language_codes()[i], menu_language_labels()[i]),
        is_supported_language(menu_language_codes()[i]),
{
    assert(supported_languages()[i] == menu_language_codes()[i]);
}

/// The entries of the language submenu, in order.
pub fn language_menu_entries() -> (r: Vec<LanguageMenuEntry>)
    ensures
        r@.len() == 10,
        forall|i: int| 0 <= i < 10 ==> is_native_name_of(r@[i].code@, r@[i].label@),
        forall|i: int|
            0 <= i < 10 ==> r@[i].code@ == menu_language_codes()[i] && r@[i].label@
                == menu_language_labels()[i],
{
    let mut v: Vec<LanguageMenuEntry> = Vec::new();
    v.push(LanguageMenuEntry { code: "zh-CN", label: "简体中文" });
    v.push(LanguageMenuEntry { code: "zh-TW", label: "繁體中文" });
    v.push(LanguageMenuEntry { code: "en", label: "English" });
    v.push(LanguageMenuEntry { code: "ja", label: "日本語" });
    v.push(LanguageMenuEntry { code: "ko", label: "한국어" });
    v.push(LanguageMenuEntry { code: "es", label: "Español" });
    v.push(LanguageMenuEntry { code: "fr", label: "Français" });
    v.push(LanguageMenuEntry { code: "de", label: "Deutsch" });
    v.push(LanguageMenuEntry { code: "pt-BR", label: "Português (Brasil)" });
    v.push(LanguageMenuEntry { code: "ru", label: "Русский" });
    v
}

/// The menu id of the item that selects `code`.
pub fn language_menu_id(code: &str) -> (r: String)
    ensures
        r@ == language_id_prefix() + code@,
{
    let mut id = String::from_str("lang-");
    id.append(code);
    id
}

/// For each submenu entry, in order, whether it is the selected language.
pub fn language_check_states(language: &str) -> (r: Vec<bool>)
    ensures
        r@.len() == 10,
        forall|i: int| 0 <= i < 10 ==> r@[i] == (language@ == menu_language_codes()[i]),
{
    let entries = language_menu_entries();
    let mut states: Vec<bool> = Vec::new();
    let mut i: usize = 0;
    while i < entries.len()
        invariant
            i <= entries@.len() == 10,
            states@.len() == i,
            forall|j: int| 0 <= j < 10 ==> entries@[j].code@ == menu_language_codes()[j],
            forall|j: int| 0 <= j < i ==> states@[j] == (language@ == menu_language_codes()[j]),
        decreases entries@.len() - i,
    {
        states.push(text_eq(language, entries[i].code));
        i = i + 1;
    }
    states
}

/// The submenu offers exactly the supported languages, each once, so a
/// supported language checks exactly one entry and any other code checks none.
pub proof fn lemma_one_language_checked(language: Seq<char>, i: int, j: int)
    ensures
        is_supported_language(language) <==> exists|k: int|
            0 <= k < 10 && #[trigger] menu_language_codes()[k] == language,
        0 <= i < 10 && 0 <= j < 10 && menu_language_codes()[i] == language
            && menu_language_codes()[j] == language ==> i == j,
{
    reveal_strlit("zh-CN");
    reveal_strlit("zh-TW");
    reveal_strlit("en");
    reveal_strlit("ja");
    reveal_strlit("ko");
    reveal_strlit("es");
    reveal_strlit("fr");
    reveal_strlit("de");
    reveal_strlit("pt-BR");
    reveal_strlit("ru");
    assert(menu_language_codes() == supported_languages());
    if 0 <= i < 10 && 0 <= j < 10 && menu_language_codes()[i] == language
        && menu_language_codes()[j] == language && i != j {
        let a = menu_language_codes()[i];
        let b = menu_language_codes()[j];
        assert(a.len() != b.len() || a[0] != b[0] || a[1] != b[1] || a[3] != b[3]);
    }
    if is_supported_language(language) {
        let k = choose|k: int| 0 <= k < supported_languages().len() && supported_languages()[k] == language;
        assert(menu_language_codes()[k] == language);
    }
}

// ---------------------------------------------------------------------------
// Tray-menu dispatch

/// What a tray-menu click asks for.
pub enum MenuAction {
    /// Show or hide the island, following the item's check mark.
    ToggleShow,
    /// Refresh the usage now.
    Refresh,
    /// Turn launch-at-startup on or off, following the item's check mark.
    ToggleAutostart,
    /// Switch the interface to the given language code.
    SetLanguage(String),
    /// Open the given address in the browser.
    OpenUrl(String),
    Quit,
    /// An id this menu does not define.
    Ignore,
}

/// A menu action, with texts as character sequences.
pub enum MenuActionView {
    ToggleShow,
    Refresh,
    ToggleAutostart,
    SetLanguage(Seq<char>),
    OpenUrl(Seq<char>),
    Quit,
    Ignore,
}

impl View for MenuAction {
    type V = MenuActionView;

    open spec fn view(&self) -> MenuActionView {
        match self {
            MenuAction::ToggleShow => MenuActionView::ToggleShow,
            MenuAction::Refresh => MenuActionView::Refresh,
            MenuAction::ToggleAutostart => MenuActionView::ToggleAutostart,
            MenuAction::SetLanguage(s) => MenuActionView::SetLanguage(s@),
            MenuAction::OpenUrl(s) => MenuActionView::OpenUrl(s@),
            MenuAction::Quit => MenuActionView::Quit,
            MenuAction::Ignore => MenuActionView::Ignore,
        }
    }
}

pub open spec fn repository_url() -> Seq<char> {
    "https://github.com/s840207702/codex-island"@
}

pub open spec fn toolbox_url() -> Seq<char> {
    "https://www.feige177.com"@
}

/// The action of the tray-menu item with this id. An id starting with `lang-`
/// selects the language named by the rest of the id, with every leading
/// `lang-` removed.
pub open spec fn menu_action_of(id: Seq<char>) -> MenuActionView {
    if id == "show"@ {
        MenuActionView::ToggleShow
    } else if id == "refresh"@ {
        MenuActionView::Refresh
    } else if id == "autostart"@ {
        MenuActionView::ToggleAutostart
    } else if has_prefix(id, language_id_prefix()) {
        MenuActionView::SetLanguage(strip_repeated_prefix(id, language_id_prefix()))
    } else if id == "github"@ {
        MenuActionView::OpenUrl(repository_url())
    } else if id == "toolbox"@ {
        MenuActionView::OpenUrl(toolbox_url())
    } else if id == "quit"@ {
        MenuActionView::Quit
    } else {
        MenuActionView::Ignore
    }
}

/// Decides what a click on the tray-menu item `id` does.
pub fn menu_action(id: &str) -> (r: MenuAction)
    ensures
        r@ == menu_action_of(id@),
{
    if text_eq(id, "show") {
        return MenuAction::ToggleShow;
    }
    if text_eq(id, "refresh") {
        return MenuAction::Refresh;
    }
    if text_eq(id, "autostart") {
        return MenuAction::ToggleAutostart;
    }
    let chars = chars_of(id);
    let prefix = chars_of("lang-");
    proof {
        reveal_strlit("lang-");
    }
    if starts_with_chars(&chars, &prefix) {
        return MenuAction::SetLanguage(strip_prefix_repeatedly(&chars, &prefix));
    }
    if text_eq(id, "github") {
        MenuAction::OpenUrl(String::from_str("https://github.com/s840207702/codex-island"))
    } else if text_eq(id, "toolbox") {
        MenuAction::OpenUrl(String::from_str("https://www.feige177.com"))
    } else if text_eq(id, "quit") {
        MenuAction::Quit
    } else {
        MenuAction::Ignore
    }
}

/// Whether a click on the "show" item shows the island: it follows the
/// item's check mark, and shows it when the mark cannot be read.
pub fn show_requested(checked: Option<bool>) -> (r: bool)
    ensures
        r == match checked {
            Some(b) => b,
            None => true,
        },
{
    match checked {
        Some(b) => b,
        None => true,
    }
}

/// Whether a click on the "launch at startup" item asks to enable it: it
/// follows the item's check mark, and asks to disable it when the mark
/// cannot be read.
pub fn autostart_requested(checked: Option<bool>) -> (r: bool)
    ensures
        r == match checked {
            Some(b) => b,
            None => false,
        },
{
    match checked {
        Some(b) => b,
        None => false,
    }
}

/// The check mark to put back on the "launch at startup" item after the
/// request: when the change failed, the mark returns to the state before the
/// click; when it succeeded, the mark is left alone (`None`).
pub fn autostart_mark_after(requested_enabled: bool, succeeded: bool) -> (r: Option<bool>)
    ensures
        r == if succeeded {
            None::<bool>
        } else {
            Some(!requested_enabled)
        },
{
    if succeeded {
        None
    } else {
        Some(!requested_enabled)
    }
}

/// Each language item of the submenu selects its own language.
pub proof fn lemma_language_items_select_their_language(i: int)
    requires
        0 <= i < 10,
    ensures
        menu_action_of(language_id_prefix() + menu_language_codes()[i]) == MenuActionView::SetLanguage(
            menu_language_codes()[i],
        ),
{
    reveal_strlit("lang-");
    reveal_strlit("show");
    reveal_strlit("refresh");
    reveal_strlit("autostart");
    reveal_strlit("zh-CN");
    reveal_strlit("zh-TW");
    reveal_strlit("en");
    reveal_strlit("ja");
    reveal_strlit("ko");
    reveal_strlit("es");
    reveal_strlit("fr");
    reveal_strlit("de");
    reveal_strlit("pt-BR");
    reveal_strlit("ru");
    let p = language_id_prefix();
    let code = menu_language_codes()[i];
    let id = p + code;
    assert(id.subrange(0, 5) =~= p);
    assert(id.subrange(5, id.len() as int) =~= code);
    assert(!has_prefix(code, p)) by {
        if code.len() >= 5 {
            assert(code.subrange(0, 5)[0] != p[0] || code.subrange(0, 5)[1] != p[1]);
        }
    }
    assert(id[0] == 'l');
    assert(id != "show"@ && id != "refresh"@ && id != "autostart"@) by {
        assert("show"@[0] != 'l' && "refresh"@[0] != 'l' && "autostart"@[0] != 'l');
    }
    assert(has_prefix(id, p));
    assert(strip_repeated_prefix(code, p) == code);
    assert(strip_repeated_prefix(id, p) == strip_repeated_prefix(code, p));
}

// ---------------------------------------------------------------------------
// Language-change script

#[verifier::external_type_specification]
#[verifier::external_body]
pub struct ExJsonError(serde_json::Error);

/// `serde_json::to_string` on a `str` succeeds and gives the string as a
/// JSON string literal (`json_string_text`). A `str` serialises through
/// `serialize_str` into an in-memory `Vec<u8>`, whose writes cannot fail,
/// and `format_escaped_str` escapes exactly `"`, `\\` and the characters
/// below U+0020 (short escapes for backspace, tab, line feed, form feed and
/// carriage return, `\u00xx` with lower-case hex digits for the others).
#[verifier::external_body]
fn json_string(value: &str) -> (r: Result<String, serde_json::Error>)
    ensures
        r is Ok,
        r is Ok ==> r->Ok_0@ == json_string_text(value@),
{
    serde_json::to_string(value)
}

/// The payload quoted into the script when serialisation fails.
pub open spec fn fallback_language_payload() -> Seq<char> {
    "\"zh-CN\""@
}

/// The script that announces a language change, with `payload` as the
/// event's detail.
pub open spec fn language_script_text(payload: Seq<char>) -> Seq<char> {
    "window.dispatchEvent(new CustomEvent('codex-island-language-dom-change', { detail: "@ + payload
        + " }));"@
}

/// The serialised language when serialisation succeeded, else the quoted default code.
pub fn language_payload(serialized: Result<String, serde_json::Error>) -> (r: String)
    ensures
        r@ == match serialized {
            Ok(s) => s@,
            Err(_) => fallback_language_payload(),
        },
{
    match serialized {
        Ok(s) => s,
        Err(_) => String::from_str("\"zh-CN\""),
    }
}

/// The script that dispatches the language-change event with `payload` as detail.
pub fn language_dom_script(payload: &str) -> (r: String)
    ensures
        r@ == language_script_text(payload@),
{
    let mut script = String::from_str(
        "window.dispatchEvent(new CustomEvent('codex-island-language-dom-change', { detail: ",
    );
    script.append(payload);
    script.append(" }));");
    script
}

/// The script that tells a web view the interface language is now `language`:
/// the event's detail is the language as a JSON string literal.
pub fn language_change_script(language: &str) -> (r: String)
    ensures
        r@ == language_script_text(json_string_text(language@)),
{
    let payload = language_payload(json_string(language));
    language_dom_script(payload.as_str())
}

/// The detail of the language-change script is a JSON string literal that
/// reads back as exactly the language, so no character of the language can
/// end the literal and act as script.
pub proof fn lemma_language_script_carries_language(language: Seq<char>)
    ensures
        exists|detail: Seq<char>|
            language_script_text(detail) == language_script_text(json_string_text(language))
                && #[trigger] json_string_value(detail) == Some(language),
{
    lemma_json_string_round_trip(language);
    assert(json_string_value(json_string_text(language)) == Some(language));
}

} // verus!
