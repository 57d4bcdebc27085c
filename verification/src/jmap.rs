//! The JMAP vocabulary that a synchronisation speaks.

use vstd::prelude::*;

use crate::keyed::{Key, KeyMap, KeySet};

verus! {

/// The identifier of a JMAP object: an email, a blob or a mailbox.
#[derive(Debug, Hash)]
pub struct Id(pub String);

impl View for Id {
    type V = Seq<char>;

    open spec fn view(&self) -> Seq<char> {
        self.0@
    }
}

impl Clone for Id {
    fn clone(&self) -> (copy: Self)
        ensures
            copy == *self,
    {
        Id(self.0.clone())
    }
}

impl PartialEq for Id {
    fn eq(&self, other: &Self) -> (same: bool) {
        self.0 == other.0
    }
}

impl vstd::std_specs::cmp::PartialEqSpecImpl for Id {
    open spec fn obeys_eq_spec() -> bool {
        true
    }

    open spec fn eq_spec(&self, other: &Self) -> bool {
        self@ == other@
    }
}

impl Eq for Id {
}

impl Id {
    /// The identifier as it is shown to people: its text, unchanged.
    pub fn to_string(&self) -> (text: String)
        ensures
            text@ == self@,
    {
        self.0.clone()
    }
}

impl Key for Id {
    fn text(&self) -> (text: &str) {
        self.0.as_str()
    }

    fn duplicate(&self) -> (copy: Self) {
        self.clone()
    }
}

/// A set of identifiers.
pub type IdSet = KeySet<Id>;

/// A map from identifiers.
pub type IdMap<V> = KeyMap<Id, V>;

/// The server's token for one state of its collection of emails.
#[derive(Debug, Hash)]
pub struct State(pub String);

impl View for State {
    type V = Seq<char>;

    open spec fn view(&self) -> Seq<char> {
        self.0@
    }
}

impl Clone for State {
    fn clone(&self) -> (copy: Self)
        ensures
            copy == *self,
    {
        State(self.0.clone())
    }
}

impl PartialEq for State {
    fn eq(&self, other: &Self) -> (same: bool) {
        self.0 == other.0
    }
}

impl vstd::std_specs::cmp::PartialEqSpecImpl for State {
    open spec fn obeys_eq_spec() -> bool {
        true
    }

    open spec fn eq_spec(&self, other: &Self) -> bool {
        self@ == other@
    }
}

impl Eq for State {
}

impl State {
    /// The state token as it is shown to people: its text, unchanged.
    pub fn to_string(&self) -> (text: String)
        ensures
            text@ == self@,
    {
        self.0.clone()
    }
}

/// Keywords that assign meaning to email.
///
/// Note that JMAP mandates that these be lowercase.
///
/// See <https://www.iana.org/assignments/imap-jmap-keywords/imap-jmap-keywords.xhtml>.
pub type EmailKeyword = String;

pub const EMAIL_KEYWORD_DRAFT: &'static str = "$draft";

pub const EMAIL_KEYWORD_SEEN: &'static str = "$seen";

pub const EMAIL_KEYWORD_FLAGGED: &'static str = "$flagged";

pub const EMAIL_KEYWORD_ANSWERED: &'static str = "$answered";

pub const EMAIL_KEYWORD_FORWARDED: &'static str = "$forwarded";

pub const EMAIL_KEYWORD_JUNK: &'static str = "$junk";

pub const EMAIL_KEYWORD_NOT_JUNK: &'static str = "$notjunk";

pub const EMAIL_KEYWORD_PHISHING: &'static str = "$phishing";

pub const EMAIL_KEYWORD_IMPORTANT: &'static str = "$important";

/// Identifiers are their texts: two are equal exactly if they have the same
/// characters, and the text of one is what is shown of it.
pub proof fn law_identifiers_are_their_texts(id: Id, other: Id)
    ensures
        id@ == id.0@,
        vstd::std_specs::cmp::PartialEqSpec::eq_spec(&id, &other) <==> id.0@ == other.0@,
{
}

/// States are their texts: two are equal exactly if they have the same characters,
/// and the text of one is what is shown of it.
pub proof fn law_states_are_their_texts(state: State, other: State)
    ensures
        state@ == state.0@,
        vstd::std_specs::cmp::PartialEqSpec::eq_spec(&state, &other) <==> state.0@ == other.0@,
{
}

} // verus!
