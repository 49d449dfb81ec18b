//! Locales of the user interface and the keys under which texts are
//! translated.

use crate::text::str_eq;
use heck::ToSnakeCase;
use vstd::prelude::*;

verus! {

/// A language of the user interface.
#[derive(Debug, Clone, Copy, PartialEq, Eq, Structural)]
pub enum Locale {
    English,
    German,
}

/// The locale that an identifier names.
pub open spec fn locale_of_id(id: Seq<char>) -> Option<Locale> {
    if id == "en"@ {
        Some(Locale::English)
    } else if id == "de"@ {
        Some(Locale::German)
    } else {
        None
    }
}

/// The identifier of a locale.
pub open spec fn id_of_locale(l: Locale) -> Seq<char> {
    match l {
        Locale::English => "en"@,
        Locale::German => "de"@,
    }
}

impl Default for Locale {
    fn default() -> (r: Self)
        ensures
            r == Locale::English,
    {
        Locale::English
    }
}

/// The identifier of the locale that the translation library currently
/// uses.
///
/// Trusted: calls `rust_i18n::locale`, which reads a process-wide setting
/// that `rust_i18n::set_locale` changes; nothing is stated of the result.
#[verifier::external_body]
fn current_locale_id() -> String {
    rust_i18n::locale().to_string()
}

/// Makes the translation library use the locale `id`.
///
/// Trusted: calls `rust_i18n::set_locale`, which changes a process-wide
/// setting and returns nothing.
#[verifier::external_body]
fn set_current_locale(id: &str) {
    rust_i18n::set_locale(id)
}

impl Locale {
    /// The locale named by `id`, if any.
    pub fn from_id(id: &str) -> (r: Option<Self>)
        ensures
            r == locale_of_id(id@),
    {
        if str_eq(id, "en") {
            Some(Locale::English)
        } else if str_eq(id, "de") {
            Some(Locale::German)
        } else {
            None
        }
    }

    /// The identifier of this locale.
    pub fn id(&self) -> (r: &'static str)
        ensures
            r@ == id_of_locale(*self),
    {
        match self {
            Locale::English => "en",
            Locale::German => "de",
        }
    }

    /// The name of this locale in its own language.
    pub fn name(&self) -> (r: &'static str)
        ensures
            r@ == match *self {
                Locale::English => "English"@,
                Locale::German => "Deutsch"@,
            },
    {
        match self {
            Locale::English => "English",
            Locale::German => "Deutsch",
        }
    }

    /// The locale named by `id`, or the default locale where `id` names
    /// none.
    pub fn from_id_or_default(id: &str) -> (r: Self)
        ensures
            r == match locale_of_id(id@) {
                Some(l) => l,
                None => Locale::English,
            },
    {
        match Self::from_id(id) {
            Some(l) => l,
            None => Locale::default(),
        }
    }

    /// The locale that the translation library currently uses, or the
    /// default locale where its identifier names none.
    pub fn get() -> Self {
        let id = current_locale_id();
        Self::from_id_or_default(id.as_str())
    }

    /// Makes the translation library use this locale.
    pub fn apply(&self) {
        set_current_locale(self.id());
    }
}

/// Every locale is named by its own identifier, and the identifiers of
/// distinct locales differ.
pub proof fn lemma_locale_id_roundtrip(l: Locale)
    ensures
        locale_of_id(id_of_locale(l)) == Some(l),
{
    reveal_strlit("en");
    reveal_strlit("de");
    assert("en"@[0] != "de"@[0]);
    assert("en"@ != "de"@);
}

/// A value that has a text translated under a key.
pub trait Translatable {
    /// The key under which the value's text is translated.
    fn key(&self) -> String;
}

/// The snake-case form of a name, as `heck` writes it (lower case, words
/// joined by `_`).
pub uninterp spec fn snake_case(s: Seq<char>) -> Seq<char>;

/// Trusted: calls `heck::ToSnakeCase::to_snake_case`, whose result depends
/// on its argument alone.
#[verifier::external_body]
pub(crate) fn to_snake_case(s: &str) -> (r: String)
    ensures
        r@ == snake_case(s@),
{
    s.to_snake_case()
}

/// The translation key `namespace.name`.
pub fn join_key(namespace: &str, name: &str) -> (r: String)
    ensures
        r@ == namespace@ + "."@ + name@,
{
    let mut k = namespace.to_owned();
    k.append(".");
    k.append(name);
    k
}

} // verus!
