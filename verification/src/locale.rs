//! UI language follows the user's preferred OS language, not the region or keyboard.
use vstd::prelude::*;

use crate::cluster::{NodeRole, NodeStatus};
use crate::text::{chars_of, eq_ignore_case, first_piece, lower_char, split_on, trim, trimmed};

verus! {

#[derive(Debug, Clone, Copy, PartialEq, Eq, Structural)]
pub enum Language {
    English,
    Russian,
}

impl Default for Language {
    fn default() -> (language: Self)
        ensures
            language == Language::English,
    {
        Language::English
    }
}

/// The characters that end the language subtag of a locale name.
pub open spec fn locale_separators() -> Seq<char> {
    seq!['-', '_', '.', '@']
}

/// Russian exactly when the primary language subtag of the trimmed locale
/// name is `ru`, in any ASCII case; English otherwise.
pub open spec fn language_of(locale: Option<Seq<char>>) -> Language {
    let name = match locale {
        Some(l) => l,
        None => Seq::<char>::empty(),
    };
    let primary = split_on(trim(name), locale_separators())[0];
    if eq_ignore_case(primary, seq!['r', 'u']) {
        Language::Russian
    } else {
        Language::English
    }
}

/// The preferred locale of the operating system (`sys_locale::get_locale`).
/// It depends on the machine and the user's settings, so nothing is stated of it.
#[verifier::external_body]
fn system_locale() -> Option<String> {
    sys_locale::get_locale()
}

/// The label of a role in a language.
pub open spec fn role_label(language: Language, role: NodeRole) -> Seq<char> {
    match (language, role) {
        (Language::English, NodeRole::Automatic) => "Automatic"@,
        (Language::English, NodeRole::Main) => "Main"@,
        (Language::English, NodeRole::Worker) => "Worker"@,
        (Language::Russian, NodeRole::Automatic) => "Автоматически"@,
        (Language::Russian, NodeRole::Main) => "Основной"@,
        (Language::Russian, NodeRole::Worker) => "Дополнительный"@,
    }
}

impl Language {
    /// The language of the operating system's preferred locale.
    pub fn detect() -> (language: Self) {
        match system_locale() {
            Some(locale) => Self::from_locale(Some(locale.as_str())),
            None => Self::from_locale(None),
        }
    }

    pub fn from_locale(locale: Option<&str>) -> (language: Self)
        ensures
            language == language_of(
                match locale {
                    Some(l) => Some(l@),
                    None => None,
                },
            ),
    {
        let name: Vec<char> = match locale {
            Some(l) => chars_of(l),
            None => Vec::new(),
        };
        let cleaned = trimmed(&name);
        let primary = first_piece(&cleaned, &['-', '_', '.', '@']);
        let russian = primary.len() == 2 && lower_char(primary[0]) == 'r' && lower_char(primary[1]) == 'u';
        proof {
            let p = primary@;
            let ru = seq!['r', 'u'];
            assert(crate::text::lower_seq(ru) =~= ru);
            if russian {
                assert(crate::text::lower_seq(p) =~= ru);
            } else if p.len() == 2 {
                assert(crate::text::lower_seq(p)[0] == crate::text::lower(p[0]));
                assert(crate::text::lower_seq(p)[1] == crate::text::lower(p[1]));
            }
        }
        if russian {
            Language::Russian
        } else {
            Language::English
        }
    }

    /// Chooses the English or the Russian text.
    pub fn text<'a>(self, english: &'a str, russian: &'a str) -> (chosen: &'a str)
        ensures
            chosen == (if self == Language::English { english } else { russian }),
    {
        match self {
            Language::English => english,
            Language::Russian => russian,
        }
    }

    pub fn role(self, role: NodeRole) -> (label: &'static str)
        ensures
            label@ == role_label(self, role),
    {
        match role {
            NodeRole::Automatic => self.text("Automatic", "Автоматически"),
            NodeRole::Main => self.text("Main", "Основной"),
            NodeRole::Worker => self.text("Worker", "Дополнительный"),
        }
    }

    pub fn node_status(self, status: NodeStatus) -> (label: &'static str)
        ensures
            label@ == (match (self, status) {
                (Language::English, NodeStatus::Discovered) => "Discovered"@,
                (Language::English, NodeStatus::Pairing) => "Pairing"@,
                (Language::English, NodeStatus::Trusted) => "Trusted"@,
                (Language::English, NodeStatus::Ready) => "Ready"@,
                (Language::English, NodeStatus::Busy) => "Busy"@,
                (Language::English, NodeStatus::Offline) => "Offline"@,
                (Language::Russian, NodeStatus::Discovered) => "Обнаружен"@,
                (Language::Russian, NodeStatus::Pairing) => "Подключение"@,
                (Language::Russian, NodeStatus::Trusted) => "Доверенный"@,
                (Language::Russian, NodeStatus::Ready) => "Готов"@,
                (Language::Russian, NodeStatus::Busy) => "Занят"@,
                (Language::Russian, NodeStatus::Offline) => "Не в сети"@,
            }),
    {
        match status {
            NodeStatus::Discovered => self.text("Discovered", "Обнаружен"),
            NodeStatus::Pairing => self.text("Pairing", "Подключение"),
            NodeStatus::Trusted => self.text("Trusted", "Доверенный"),
            NodeStatus::Ready => self.text("Ready", "Готов"),
            NodeStatus::Busy => self.text("Busy", "Занят"),
            NodeStatus::Offline => self.text("Offline", "Не в сети"),
        }
    }
}

/// Chooses the text for the operating system's language.
pub fn text<'a>(english: &'a str, russian: &'a str) -> (chosen: &'a str)
    ensures
        chosen == english || chosen == russian,
{
    Language::detect().text(english, russian)
}

} // verus!
