//! Bringing files in, and deciding which ones to read.
//!
//! Importing has three answers and one non-answer, and the difference matters
//! to the application: a file that was too large, a file of the wrong kind, a
//! file that loaded, and a person who closed the picker without choosing. Only
//! the third writes anything.
//!
//! The refusals are decided from the name and the size alone, before a byte is
//! read. A 2 GB file that will be refused for its size should be refused
//! immediately, not after the browser has read it into memory.

use vstd::prelude::*;
use crate::strings::{
    chars_end_with, chars_of, decimal, ends_with, join_strs, joined, lower, push_decimal, push_str,
    str_views, to_ascii_lowercase,
};

verus! {

/// What an import will accept.
///
/// The list of kinds is the same one the file picker shows, so that the
/// picker's filter and this check cannot drift apart: a component builds its
/// `accept` attribute from [`Limits::accept_attribute`].
#[derive(Clone, Copy, Debug, PartialEq, Eq)]
pub struct Limits {
    /// The largest file this import will read, in bytes.
    pub max_bytes: u64,
    /// The extensions this import will read, each written with its dot and in
    /// lower case (`".json"`). Empty means every extension.
    pub kinds: &'static [&'static str],
}

/// Why a file was not read.
#[derive(Clone, Copy, Debug, PartialEq, Eq)]
pub enum Refusal {
    TooLarge { bytes: u64, limit: u64 },
    WrongKind { allowed: &'static [&'static str] },
    /// The browser could not read a file it had already offered - removed from
    /// disk between the choice and the read, or unreadable.
    Unreadable,
}

/// Whether some kind in `kinds` ends the name, the name's case aside.
pub open spec fn kind_matches(kinds: Seq<Seq<char>>, name: Seq<char>) -> bool {
    exists|i: int| 0 <= i < kinds.len() && ends_with(lower(name), #[trigger] kinds[i])
}

/// What checking a file of `bytes` bytes called `name` against `limits`
/// answers. Size first: it is the refusal that costs the most to discover
/// late, and a file can be both too large and of the wrong kind.
pub open spec fn check_result(limits: Limits, name: Seq<char>, bytes: u64) -> Result<(), Refusal> {
    if bytes > limits.max_bytes {
        Err(Refusal::TooLarge { bytes, limit: limits.max_bytes })
    } else if limits.kinds@.len() == 0 || kind_matches(str_views(limits.kinds@), name) {
        Ok(())
    } else {
        Err(Refusal::WrongKind { allowed: limits.kinds })
    }
}

impl Limits {
    /// Whether this file may be read, decided without reading it.
    pub fn check(&self, name: &str, bytes: u64) -> (r: Result<(), Refusal>)
        ensures
            r == check_result(*self, name@, bytes),
    {
        if bytes > self.max_bytes {
            return Err(Refusal::TooLarge { bytes, limit: self.max_bytes });
        }
        if self.kinds.len() == 0 {
            return Ok(());
        }
        let lowered = to_ascii_lowercase(name);
        let ghost kinds = str_views(self.kinds@);
        let mut i: usize = 0;
        while i < self.kinds.len()
            invariant
                i <= self.kinds@.len(),
                bytes <= self.max_bytes,
                kinds == str_views(self.kinds@),
                lowered@ == lower(name@),
                forall|j: int| 0 <= j < i ==> !ends_with(lower(name@), #[trigger] kinds[j]),
            decreases self.kinds@.len() - i,
        {
            let kind = chars_of(self.kinds[i]);
            if chars_end_with(lowered.as_slice(), kind.as_slice()) {
                assert(kinds[i as int] == kind@);
                assert(ends_with(lower(name@), kinds[i as int]));
                assert(kind_matches(kinds, name@));
                return Ok(());
            }
            i = i + 1;
        }
        Err(Refusal::WrongKind { allowed: self.kinds })
    }

    /// The value for a file input's `accept` attribute, so the picker offers
    /// what this import would take. It is a courtesy, not the check: a person
    /// can defeat any picker filter, and [`check`](Self::check) still runs.
    pub fn accept_attribute(&self) -> (r: String)
        ensures
            r@ == joined(str_views(self.kinds@), seq![',']),
    {
        let sep = ",";
        proof {
            reveal_strlit(",");
        }
        assert(sep@ =~= seq![',']);
        join_strs(self.kinds, sep)
    }
}

/// What a refusal says to the person who chose the file.
pub open spec fn refusal_text(r: Refusal) -> Seq<char> {
    match r {
        Refusal::TooLarge { bytes, limit } => decimal(bytes as nat) + " bytes, and the limit is "@ + decimal(
            limit as nat,
        ),
        Refusal::WrongKind { allowed } => if allowed@.len() == 0 {
            "not a kind we read"@
        } else {
            "we read "@ + joined(str_views(allowed@), ", "@)
        },
        Refusal::Unreadable => "the file could not be read"@,
    }
}

impl Refusal {
    /// What was wrong with the file, in words.
    pub fn message(&self) -> (r: String)
        ensures
            r@ == refusal_text(*self),
    {
        match self {
            Refusal::TooLarge { bytes, limit } => {
                let mut out = String::new();
                push_decimal(&mut out, *bytes);
                push_str(&mut out, " bytes, and the limit is ");
                push_decimal(&mut out, *limit);
                assert(out@ =~= refusal_text(*self));
                out
            },
            Refusal::WrongKind { allowed } => {
                if allowed.len() == 0 {
                    "not a kind we read".to_owned()
                } else {
                    let mut out = "we read ".to_owned();
                    let list = join_strs(allowed, ", ");
                    push_str(&mut out, list.as_str());
                    out
                }
            },
            Refusal::Unreadable => "the file could not be read".to_owned(),
        }
    }
}

/// What came of asking for a file.
#[derive(Clone, Debug, PartialEq, Eq)]
pub enum Import {
    /// A file, and its bytes. The only variant that should change anything.
    Loaded { name: String, bytes: Vec<u8> },
    /// A file was chosen and will not be read. The application says why; it
    /// does not change.
    Refused { name: String, why: Refusal },
    /// Nobody chose anything: the picker was dismissed, or a drop carried no
    /// files. Not an error, and not worth reporting to the user.
    Aborted,
}

impl Import {
    /// The bytes, if there are any. Written so that the ordinary use reads as
    /// one line and the two other outcomes cannot be forgotten by accident.
    pub fn loaded(&self) -> (r: Option<(&str, &[u8])>)
        ensures
            match self {
                Import::Loaded { name, bytes } => r matches Some((n, b)) && n@ == name@ && b@ == bytes@,
                _ => r is None,
            },
    {
        match self {
            Import::Loaded { name, bytes } => Some((name.as_str(), bytes.as_slice())),
            _ => None,
        }
    }

    /// What a chosen file called `name`, of `size` bytes, comes to before a
    /// byte of it is read: `None` when it is to be read, and the refusal
    /// otherwise.
    pub fn before_reading(limits: &Limits, name: String, size: u64) -> (r: Option<Import>)
        ensures
            match check_result(*limits, name@, size) {
                Ok(_) => r is None,
                Err(why) => r == Some(Import::Refused { name, why }),
            },
    {
        match limits.check(name.as_str(), size) {
            Ok(()) => None,
            Err(why) => Some(Import::Refused { name, why }),
        }
    }

    /// What reading the file called `name` came to: its bytes, or a file
    /// the browser could not read after all.
    pub fn after_reading(name: String, bytes: Option<Vec<u8>>) -> (r: Import)
        ensures
            r == match bytes {
                Some(b) => Import::Loaded { name, bytes: b },
                None => Import::Refused { name, why: Refusal::Unreadable },
            },
    {
        match bytes {
            Some(bytes) => Import::Loaded { name, bytes },
            None => Import::Refused { name, why: Refusal::Unreadable },
        }
    }
}

/// The picker offers exactly what the check would take: a file that fits and
/// whose name, in any case, ends with one of the kinds the `accept`
/// attribute lists is read.
pub proof fn law_an_offered_kind_is_taken(limits: Limits, name: Seq<char>, bytes: u64, i: int)
    requires
        bytes <= limits.max_bytes,
        0 <= i < limits.kinds@.len(),
        ends_with(lower(name), limits.kinds@[i]@),
    ensures
        check_result(limits, name, bytes) == Ok::<(), Refusal>(()),
{
    assert(str_views(limits.kinds@)[i] == limits.kinds@[i]@);
}

} // verus!
