//! DNS names as they are used for workload identities and lookup keys.

use vstd::prelude::*;

verus! {

/// Whether `webpki` accepts `text` as a DNS name.
pub uninterp spec fn is_dns_name(text: Seq<char>) -> bool;

/// A character in lower case, where it is an ASCII letter.
pub open spec fn lower(c: char) -> char {
    if 'A' <= c && c <= 'Z' {
        ((c as u32) + 32) as char
    } else {
        c
    }
}

/// A text in normalized form: with its ASCII letters in lower case.
pub open spec fn normalized(text: Seq<char>) -> Seq<char> {
    text.map_values(|c: char| lower(c))
}

/// The name that a text stands for: its normalized form when it is a DNS
/// name, and none when it is not.
pub open spec fn dns_name_of(text: Seq<char>) -> Option<Seq<char>> {
    if is_dns_name(text) {
        Some(normalized(text))
    } else {
        None
    }
}

/// Validates `text` with `webpki::DnsNameRef::try_from_ascii_str` and, when
/// it is accepted, returns the owned name that `DnsNameRef::to_owned` makes
/// of it, which is the text with its ASCII letters in lower case. Which texts
/// are accepted is not claimed: the contract only gives that a name,
/// `is_dns_name`.
#[verifier::external_body]
fn normalize_dns_name(text: &str) -> (r: Option<String>)
    ensures
        r is Some <==> is_dns_name(text@),
        r matches Some(name) ==> name@ == normalized(text@),
{
    match webpki::DnsNameRef::try_from_ascii_str(text) {
        Ok(name) => {
            let owned = name.to_owned();
            let normalized: &str = AsRef::<str>::as_ref(&owned);
            Some(normalized.to_string())
        },
        Err(_) => None,
    }
}

/// The text was not a syntactically valid DNS name.
#[derive(Clone, Copy, Debug, PartialEq, Eq)]
pub struct InvalidName;

/// A syntactically valid DNS name in normalized form.
///
/// The view of a name is its text.
#[derive(Clone, Debug, PartialEq, Eq, Hash)]
pub struct Name {
    text: String,
}

impl View for Name {
    type V = Seq<char>;

    closed spec fn view(&self) -> Seq<char> {
        self.text@
    }
}

impl Name {
    /// Parses a DNS name. The text is accepted exactly when `webpki` accepts
    /// it, and the name holds it in normalized form.
    pub fn from_str(text: &str) -> (r: Result<Name, InvalidName>)
        ensures
            match r {
                Ok(name) => dns_name_of(text@) == Some(name@),
                Err(_) => dns_name_of(text@) is None,
            },
    {
        match normalize_dns_name(text) {
            Some(text) => Ok(Name { text }),
            None => Err(InvalidName),
        }
    }

    /// The text of the name.
    pub fn as_str(&self) -> (text: &str)
        ensures
            text@ == self@,
    {
        self.text.as_str()
    }

    /// Whether two names have the same text.
    pub fn same(&self, other: &Name) -> (b: bool)
        ensures
            b == (self@ == other@),
    {
        self.text == other.text
    }

    /// A copy of this name.
    pub fn duplicate(&self) -> (name: Name)
        ensures
            name@ == self@,
    {
        Name { text: self.text.clone() }
    }
}

} // verus!
