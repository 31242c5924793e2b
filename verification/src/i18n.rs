//! The set of display languages the application knows, with their codes
//! and native names.  Loading translation resources is the caller's
//! concern; the closed language set and its code mapping live here.

use vstd::prelude::*;

use crate::text::chars_eq_str;
use crate::text::str_to_chars;

verus! {

/// The languages the interface can be displayed in.
#[derive(Debug, Clone, PartialEq, Eq, Hash, Structural)]
pub enum SupportedLanguage {
    French,
    English,
    German,
    Spanish,
    Italian,
    Portuguese,
    Russian,
    Chinese,
    Japanese,
}

/// ASCII lowercasing of one character; anything outside `A`..`Z` is
/// unchanged.
pub open spec fn lower_char(c: char) -> char {
    if c == 'A' {
        'a'
    } else if c == 'B' {
        'b'
    } else if c == 'C' {
        'c'
    } else if c == 'D' {
        'd'
    } else if c == 'E' {
        'e'
    } else if c == 'F' {
        'f'
    } else if c == 'G' {
        'g'
    } else if c == 'H' {
        'h'
    } else if c == 'I' {
        'i'
    } else if c == 'J' {
        'j'
    } else if c == 'K' {
        'k'
    } else if c == 'L' {
        'l'
    } else if c == 'M' {
        'm'
    } else if c == 'N' {
        'n'
    } else if c == 'O' {
        'o'
    } else if c == 'P' {
        'p'
    } else if c == 'Q' {
        'q'
    } else if c == 'R' {
        'r'
    } else if c == 'S' {
        's'
    } else if c == 'T' {
        't'
    } else if c == 'U' {
        'u'
    } else if c == 'V' {
        'v'
    } else if c == 'W' {
        'w'
    } else if c == 'X' {
        'x'
    } else if c == 'Y' {
        'y'
    } else if c == 'Z' {
        'z'
    } else {
        c
    }
}

/// ASCII lowercasing of a whole string.
pub open spec fn lower_seq(s: Seq<char>) -> Seq<char> {
    s.map_values(|c: char| lower_char(c))
}

fn lower_char_exec(c: char) -> (r: char)
    ensures
        r == lower_char(c),
{
    match c {
        'A' => 'a',
        'B' => 'b',
        'C' => 'c',
        'D' => 'd',
        'E' => 'e',
        'F' => 'f',
        'G' => 'g',
        'H' => 'h',
        'I' => 'i',
        'J' => 'j',
        'K' => 'k',
        'L' => 'l',
        'M' => 'm',
        'N' => 'n',
        'O' => 'o',
        'P' => 'p',
        'Q' => 'q',
        'R' => 'r',
        'S' => 's',
        'T' => 't',
        'U' => 'u',
        'V' => 'v',
        'W' => 'w',
        'X' => 'x',
        'Y' => 'y',
        'Z' => 'z',
        _ => c,
    }
}

fn lower_vec(v: &Vec<char>) -> (r: Vec<char>)
    ensures
        r@ == lower_seq(v@),
{
    let mut r: Vec<char> = Vec::new();
    let mut i: usize = 0;
    let n = v.len();
    while i < n
        invariant
            i <= n,
            n == v@.len(),
            r@.len() == i,
            forall|j: int| 0 <= j < i ==> r@[j] == lower_char(v@[j]),
        decreases n - i,
    {
        r.push(lower_char_exec(v[i]));
        i = i + 1;
    }
    proof {
        assert(r@ =~= lower_seq(v@));
    }
    r
}

/// Which language a code names: the code is lowercased and matched
/// against the known short codes, locale codes and English names.
pub open spec fn language_from_code(s: Seq<char>) -> Option<SupportedLanguage> {
    let l = lower_seq(s);
    if l == "fr"@ || l == "fr_fr"@ || l == "french"@ {
        Some(SupportedLanguage::French)
    } else if l == "en"@ || l == "en_us"@ || l == "en_gb"@ || l == "english"@ {
        Some(SupportedLanguage::English)
    } else if l == "de"@ || l == "de_de"@ || l == "german"@ {
        Some(SupportedLanguage::German)
    } else if l == "es"@ || l == "es_es"@ || l == "spanish"@ {
        Some(SupportedLanguage::Spanish)
    } else if l == "it"@ || l == "it_it"@ || l == "italian"@ {
        Some(SupportedLanguage::Italian)
    } else if l == "pt"@ || l == "pt_pt"@ || l == "pt_br"@ || l == "portuguese"@ {
        Some(SupportedLanguage::Portuguese)
    } else if l == "ru"@ || l == "ru_ru"@ || l == "russian"@ {
        Some(SupportedLanguage::Russian)
    } else if l == "zh"@ || l == "zh_cn"@ || l == "zh_tw"@ || l == "chinese"@ {
        Some(SupportedLanguage::Chinese)
    } else if l == "ja"@ || l == "ja_jp"@ || l == "japanese"@ {
        Some(SupportedLanguage::Japanese)
    } else {
        None
    }
}

/// The native name of each language.
pub open spec fn native_name_of(l: SupportedLanguage) -> Seq<char> {
    match l {
        SupportedLanguage::French => "Français"@,
        SupportedLanguage::English => "English"@,
        SupportedLanguage::German => "Deutsch"@,
        SupportedLanguage::Spanish => "Español"@,
        SupportedLanguage::Italian => "Italiano"@,
        SupportedLanguage::Portuguese => "Português"@,
        SupportedLanguage::Russian => "Русский"@,
        SupportedLanguage::Chinese => "中文"@,
        SupportedLanguage::Japanese => "日本語"@,
    }
}

/// The short code of each language.
pub open spec fn code_of(l: SupportedLanguage) -> Seq<char> {
    match l {
        SupportedLanguage::French => "fr"@,
        SupportedLanguage::English => "en"@,
        SupportedLanguage::German => "de"@,
        SupportedLanguage::Spanish => "es"@,
        SupportedLanguage::Italian => "it"@,
        SupportedLanguage::Portuguese => "pt"@,
        SupportedLanguage::Russian => "ru"@,
        SupportedLanguage::Chinese => "zh"@,
        SupportedLanguage::Japanese => "ja"@,
    }
}

/// Every supported language, in display order.
pub open spec fn all_languages() -> Seq<SupportedLanguage> {
    seq![
        SupportedLanguage::French,
        SupportedLanguage::English,
        SupportedLanguage::German,
        SupportedLanguage::Spanish,
        SupportedLanguage::Italian,
        SupportedLanguage::Portuguese,
        SupportedLanguage::Russian,
        SupportedLanguage::Chinese,
        SupportedLanguage::Japanese,
    ]
}

impl SupportedLanguage {
    /// Parses a language code or an English language name,
    /// case-insensitively.
    pub fn from_code(code: &str) -> (r: Option<SupportedLanguage>)
        ensures
            r == language_from_code(code@),
    {
        let v = str_to_chars(code);
        let l = lower_vec(&v);
        if chars_eq_str(&l, "fr") || chars_eq_str(&l, "fr_fr") || chars_eq_str(&l, "french") {
            Some(SupportedLanguage::French)
        } else if chars_eq_str(&l, "en") || chars_eq_str(&l, "en_us") || chars_eq_str(
            &l,
            "en_gb",
        ) || chars_eq_str(&l, "english") {
            Some(SupportedLanguage::English)
        } else if chars_eq_str(&l, "de") || chars_eq_str(&l, "de_de") || chars_eq_str(
            &l,
            "german",
        ) {
            Some(SupportedLanguage::German)
        } else if chars_eq_str(&l, "es") || chars_eq_str(&l, "es_es") || chars_eq_str(
            &l,
            "spanish",
        ) {
            Some(SupportedLanguage::Spanish)
        } else if chars_eq_str(&l, "it") || chars_eq_str(&l, "it_it") || chars_eq_str(
            &l,
            "italian",
        ) {
            Some(SupportedLanguage::Italian)
        } else if chars_eq_str(&l, "pt") || chars_eq_str(&l, "pt_pt") || chars_eq_str(
            &l,
            "pt_br",
        ) || chars_eq_str(&l, "portuguese") {
            Some(SupportedLanguage::Portuguese)
        } else if chars_eq_str(&l, "ru") || chars_eq_str(&l, "ru_ru") || chars_eq_str(
            &l,
            "russian",
        ) {
            Some(SupportedLanguage::Russian)
        } else if chars_eq_str(&l, "zh") || chars_eq_str(&l, "zh_cn") || chars_eq_str(
            &l,
            "zh_tw",
        ) || chars_eq_str(&l, "chinese") {
            Some(SupportedLanguage::Chinese)
        } else if chars_eq_str(&l, "ja") || chars_eq_str(&l, "ja_jp") || chars_eq_str(
            &l,
            "japanese",
        ) {
            Some(SupportedLanguage::Japanese)
        } else {
            None
        }
    }

    /// The language's name in that language.
    pub fn native_name(&self) -> (r: &'static str)
        ensures
            r@ == native_name_of(*self),
    {
        match self {
            SupportedLanguage::French => "Français",
            SupportedLanguage::English => "English",
            SupportedLanguage::German => "Deutsch",
            SupportedLanguage::Spanish => "Español",
            SupportedLanguage::Italian => "Italiano",
            SupportedLanguage::Portuguese => "Português",
            SupportedLanguage::Russian => "Русский",
            SupportedLanguage::Chinese => "中文",
            SupportedLanguage::Japanese => "日本語",
        }
    }

    /// The language's short code.
    pub fn code(&self) -> (r: &'static str)
        ensures
            r@ == code_of(*self),
    {
        match self {
            SupportedLanguage::French => "fr",
            SupportedLanguage::English => "en",
            SupportedLanguage::German => "de",
            SupportedLanguage::Spanish => "es",
            SupportedLanguage::Italian => "it",
            SupportedLanguage::Portuguese => "pt",
            SupportedLanguage::Russian => "ru",
            SupportedLanguage::Chinese => "zh",
            SupportedLanguage::Japanese => "ja",
        }
    }

    /// Every supported language, in display order.
    pub fn all() -> (r: Vec<SupportedLanguage>)
        ensures
            r@ == all_languages(),
    {
        let r = vec![
            SupportedLanguage::French,
            SupportedLanguage::English,
            SupportedLanguage::German,
            SupportedLanguage::Spanish,
            SupportedLanguage::Italian,
            SupportedLanguage::Portuguese,
            SupportedLanguage::Russian,
            SupportedLanguage::Chinese,
            SupportedLanguage::Japanese,
        ];
        proof {
            assert(r@ =~= all_languages());
        }
        r
    }
}

} // verus!
