//! Localized messages of the user interface.

use vstd::prelude::*;
use crate::table::{as_map, lemma_entry, lemma_push, lemma_update, names, position};

verus! {

/// What the interface shows for a message key: the message stored under the
/// key, or the key itself where none is stored.
pub open spec fn message(messages: Map<Seq<char>, Seq<char>>, key: Seq<char>) -> Seq<char> {
    if messages.contains_key(key) {
        messages[key]
    } else {
        key
    }
}

/// Whether a locale asks for the Japanese messages: its tag begins with
/// `ja`.
pub open spec fn prefers_japanese(locale: Seq<char>) -> bool {
    locale.len() >= 2 && locale[0] == 'j' && locale[1] == 'a'
}

/// The messages of one language, by key.
#[derive(Debug)]
pub struct Messages {
    entries: Vec<(String, String)>,
}

impl View for Messages {
    type V = Map<Seq<char>, Seq<char>>;

    closed spec fn view(&self) -> Map<Seq<char>, Seq<char>> {
        as_map(self.entries@).map_values(|text: String| text@)
    }
}

impl Messages {
    #[verifier::type_invariant]
    closed spec fn distinct_keys(&self) -> bool {
        names(self.entries@).no_duplicates()
    }

    /// An empty set of messages.
    pub fn new() -> (messages: Self)
        ensures
            messages@ == Map::<Seq<char>, Seq<char>>::empty(),
    {
        Messages { entries: Vec::new() }
    }

    /// Stores `text` under `key` and returns the message that was stored
    /// there before, if there was one.
    pub fn insert(&mut self, key: String, text: String) -> (previous: Option<String>)
        ensures
            final(self)@ == old(self)@.insert(key@, text@),
            match previous {
                Some(before) => old(self)@.contains_key(key@) && before@ == old(self)@[key@],
                None => !old(self)@.contains_key(key@),
            },
    {
        proof {
            use_type_invariant(&*self);
        }
        let ghost before = self.entries@;
        let mut entries: Vec<(String, String)> = Vec::new();
        std::mem::swap(&mut entries, &mut self.entries);
        let previous = match position(&entries, key.as_str()) {
            Some(i) => {
                let old_entry = entries.remove(i);
                entries.insert(i, (key, text));
                proof {
                    assert(entries@ =~= before.update(i as int, (key, text)));
                    lemma_update(before, i as int, key, text);
                    lemma_entry(before, i as int);
                }
                Some(old_entry.1)
            },
            None => {
                entries.push((key, text));
                proof {
                    lemma_push(before, key, text);
                }
                None
            },
        };
        self.entries = entries;
        previous
    }

    /// The message stored under `key`, if there is one.
    pub fn get(&self, key: &str) -> (text: Option<&String>)
        ensures
            match text {
                Some(found) => self@.contains_key(key@) && found@ == self@[key@],
                None => !self@.contains_key(key@),
            },
    {
        proof {
            use_type_invariant(self);
        }
        match position(&self.entries, key) {
            Some(i) => {
                proof {
                    lemma_entry(self.entries@, i as int);
                }
                Some(&self.entries[i].1)
            },
            None => None,
        }
    }
}

/// The messages of the language in use.
#[derive(Debug)]
pub struct I18nMessages {
    messages: Messages,
}

impl View for I18nMessages {
    type V = Map<Seq<char>, Seq<char>>;

    closed spec fn view(&self) -> Map<Seq<char>, Seq<char>> {
        self.messages@
    }
}

impl I18nMessages {
    /// Takes the messages of one language into use.
    pub fn new(messages: Messages) -> (i18n: Self)
        ensures
            i18n@ == messages@,
    {
        I18nMessages { messages }
    }

    /// Gets a message by key, with a fallback to the key itself.
    pub fn get<'a>(&'a self, key: &'a str) -> (text: &'a str)
        ensures
            text@ == message(self@, key@),
    {
        match self.messages.get(key) {
            Some(found) => found.as_str(),
            None => key,
        }
    }
}

/// The messages that a locale selects: the Japanese ones where the locale
/// asks for them, the English ones for any other locale and where no locale
/// is known.
pub open spec fn messages_of(
    locale: Option<Seq<char>>,
    en: Map<Seq<char>, Seq<char>>,
    ja: Map<Seq<char>, Seq<char>>,
) -> Map<Seq<char>, Seq<char>> {
    match locale {
        Some(tag) => if prefers_japanese(tag) {
            ja
        } else {
            en
        },
        None => en,
    }
}

/// Asks `sys_locale::get_locale` for the locale that the user prefers. The
/// answer is read from the environment, and may be missing, so nothing is
/// claimed of it.
#[verifier::external_body]
fn system_locale() -> Option<String> {
    sys_locale::get_locale()
}

/// Whether the locale tag begins with `ja`.
pub fn locale_prefers_japanese(locale: &str) -> (japanese: bool)
    ensures
        japanese == prefers_japanese(locale@),
{
    locale.unicode_len() >= 2 && locale.get_char(0) == 'j' && locale.get_char(1) == 'a'
}

/// Picks the messages for a locale out of the two languages on offer.
pub fn messages_for_locale(locale: Option<&str>, en: Messages, ja: Messages) -> (i18n:
    I18nMessages)
    ensures
        i18n@ == messages_of(
            match locale {
                Some(tag) => Some(tag@),
                None => None,
            },
            en@,
            ja@,
        ),
{
    let japanese = match locale {
        Some(tag) => locale_prefers_japanese(tag),
        None => false,
    };
    if japanese {
        I18nMessages::new(ja)
    } else {
        I18nMessages::new(en)
    }
}

/// Loads the messages of the language that the system locale selects.
///
/// Which of the two comes back depends on the environment; it is always one
/// of them.
pub fn load_messages(en: Messages, ja: Messages) -> (i18n: I18nMessages)
    ensures
        i18n@ == en@ || i18n@ == ja@,
{
    let locale = system_locale();
    match &locale {
        Some(tag) => messages_for_locale(Some(tag.as_str()), en, ja),
        None => messages_for_locale(None, en, ja),
    }
}

} // verus!
