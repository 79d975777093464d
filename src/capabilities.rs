//! Facts about the target server: its version, the extensions it offers and
//! whether the target database exists.

use vstd::prelude::*;

use crate::errors::PsqlpackErrorKind;
use crate::lexer::{chars_of, decimal_value, is_ascii_digit};

verus! {

/// A version: major, minor and patch, ordered in that priority.
#[derive(Clone, Copy, Debug, PartialEq, Eq, Structural)]
pub struct Semver {
    pub major: u32,
    pub minor: u32,
    pub patch: u32,
}

/// `a` comes no later than `b`: major, minor and patch compared in turn.
pub open spec fn version_le(a: Semver, b: Semver) -> bool {
    a.major < b.major || (a.major == b.major && (a.minor < b.minor || (a.minor == b.minor
        && a.patch <= b.patch)))
}

impl Semver {
    pub fn new(major: u32, minor: u32, patch: u32) -> (r: Semver)
        ensures
            r == (Semver { major, minor, patch }),
    {
        Semver { major, minor, patch }
    }

    /// Whether `self` comes no later than `other`.
    pub fn le(&self, other: &Semver) -> (r: bool)
        ensures
            r == version_le(*self, *other),
    {
        self.major < other.major || (self.major == other.major && (self.minor < other.minor || (
        self.minor == other.minor && self.patch <= other.patch)))
    }
}

/// A catalog whose objects can be defined in a package.
pub trait DefinableCatalog {

}

/// An extension that the server offers, in one version.
pub struct Extension {
    pub name: String,
    pub version: Semver,
    pub installed: bool,
}

/// Two extensions are the same when their names and versions are.
impl PartialEq for Extension {
    fn eq(&self, other: &Extension) -> (r: bool) {
        self.version == other.version && self.name == other.name
    }
}

impl vstd::std_specs::cmp::PartialEqSpecImpl for Extension {
    open spec fn obeys_eq_spec() -> bool {
        true
    }

    open spec fn eq_spec(&self, other: &Extension) -> bool {
        self.name@ == other.name@ && self.version == other.version
    }
}

/// What the server offers, found once per publish.
pub struct Capabilities {
    pub server_version: Semver,
    pub extensions: Vec<Extension>,
    pub database_exists: bool,
}

/// `e` is named `name` and, where a version is asked for, has that version.
pub open spec fn extension_selected(e: Extension, name: Seq<char>, version: Option<Semver>) -> bool {
    e.name@ == name && match version {
        Some(v) => e.version == v,
        None => true,
    }
}

/// The extensions that `s` refers to.
pub open spec fn referred(s: Seq<&Extension>) -> Seq<Extension> {
    s.map_values(|e: &Extension| *e)
}

/// Versions never rise along `s`.
pub open spec fn descending(s: Seq<&Extension>) -> bool {
    forall|i: int, j: int| 0 <= i < j < s.len() ==> version_le(s[j].version, s[i].version)
}

impl Capabilities {
    /// The extensions named `name`, of the given version if one is given,
    /// newest first; those of equal version keep their order.
    pub fn available_extensions(&self, name: &str, version: Option<Semver>) -> (r: Vec<&Extension>)
        ensures
            descending(r@),
            referred(r@).to_multiset() == self.extensions@.filter(
                |e: Extension| extension_selected(e, name@, version),
            ).to_multiset(),
    {
        let ghost pick = |e: Extension| extension_selected(e, name@, version);
        let wanted = String::from_str(name);
        let mut available: Vec<&Extension> = Vec::new();
        let mut i: usize = 0;
        proof {
            broadcast use vstd::seq_lib::group_seq_properties;

            assert(referred(available@) =~= Seq::<Extension>::empty());
            assert(self.extensions@.subrange(0, 0) =~= Seq::<Extension>::empty());
            assert(Seq::<Extension>::empty().filter(pick) =~= Seq::<Extension>::empty());
        }
        while i < self.extensions.len()
            invariant
                wanted@ == name@,
                pick == (|e: Extension| extension_selected(e, name@, version)),
                i <= self.extensions@.len(),
                descending(available@),
                referred(available@).to_multiset() == self.extensions@.subrange(0, i as int).filter(
                    pick,
                ).to_multiset(),
            decreases self.extensions@.len() - i,
        {
            let e = &self.extensions[i];
            proof {
                assert(self.extensions@.subrange(0, i + 1) =~= self.extensions@.subrange(
                    0,
                    i as int,
                ).push(*e));
                self.extensions@.subrange(0, i as int).lemma_filter_push(*e, pick);
            }
            let same_name = e.name == wanted;
            let same_version = match version {
                Some(v) => e.version == v,
                None => true,
            };
            let selected = same_name && same_version;
            let ghost prefix = self.extensions@.subrange(0, i as int);
            assert(selected == pick(*e));
            if selected {
                let mut k: usize = 0;
                while k < available.len() && e.version.le(&available[k].version)
                    invariant
                        k <= available@.len(),
                        forall|j: int| 0 <= j < k ==> version_le(e.version, available@[j].version),
                    decreases available@.len() - k,
                {
                    k += 1;
                }
                let ghost before = available@;
                available.insert(k, e);
                proof {
                    assert(referred(available@) =~= referred(before).insert(k as int, *e));
                    vstd::seq_lib::to_multiset_insert(referred(before), k as int, *e);
                    vstd::seq_lib::to_multiset_build(prefix.filter(pick), *e);
                    assert forall|a: int, b: int| 0 <= a < b < available@.len() implies version_le(
                        available@[b].version,
                        available@[a].version,
                    ) by {
                        if a < k && b == k {
                        } else if a == k && b > k {
                            assert(available@[b] == before[b - 1]);
                            if k < before.len() {
                                assert(!version_le(e.version, before[k as int].version));
                                if b - 1 > k {
                                    assert(version_le(before[b - 1].version, before[k as int].version));
                                }
                            }
                        }
                    }
                }
            }
            i += 1;
        }
        assert(self.extensions@.subrange(0, i as int) =~= self.extensions@);
        available
    }
}

/// The index of the first character at or after `i` that is not an ASCII digit.
pub open spec fn digits_end(s: Seq<char>, i: int) -> int
    decreases s.len() - i,
{
    if i < 0 || i >= s.len() || !is_ascii_digit(s[i]) {
        i
    } else {
        digits_end(s, i + 1)
    }
}

/// The number that the non-empty digit run `s[from..to]` spells, where it fits a `u32`.
pub open spec fn component(s: Seq<char>, from: int, to: int) -> Option<u32> {
    if from < to && decimal_value(s.subrange(from, to)) <= u32::MAX {
        Some(decimal_value(s.subrange(from, to)) as u32)
    } else {
        None
    }
}

pub open spec fn dot_at(s: Seq<char>, i: int) -> bool {
    0 <= i < s.len() && s[i] == '.'
}

/// A version read from the start of `s`: one, two or three digit runs joined
/// by dots, missing parts zero, up to the first character that continues none
/// of them (`"10.4 (Debian)"` is 10.4.0). A dot with no digits after it, a
/// fourth part, or a part too large for a `u32` is no version.
pub open spec fn parse_version(s: Seq<char>) -> Option<Semver> {
    let e1 = digits_end(s, 0);
    match component(s, 0, e1) {
        None => None,
        Some(major) => if !dot_at(s, e1) {
            Some(Semver { major, minor: 0, patch: 0 })
        } else {
            let e2 = digits_end(s, e1 + 1);
            match component(s, e1 + 1, e2) {
                None => None,
                Some(minor) => if !dot_at(s, e2) {
                    Some(Semver { major, minor, patch: 0 })
                } else {
                    let e3 = digits_end(s, e2 + 1);
                    match component(s, e2 + 1, e3) {
                        None => None,
                        Some(patch) => if dot_at(s, e3) {
                            None
                        } else {
                            Some(Semver { major, minor, patch })
                        },
                    }
                },
            }
        },
    }
}

fn read_component(s: &Vec<char>, from: usize) -> (r: (usize, Option<u32>))
    requires
        from <= s@.len(),
    ensures
        r.0 == digits_end(s@, from as int),
        from <= r.0 <= s@.len(),
        r.1 == component(s@, from as int, r.0 as int),
{
    let mut j: usize = from;
    let mut acc: u64 = 0;
    let mut overflow = false;
    while j < s.len() && 48 <= s[j] as u32 && s[j] as u32 <= 57
        invariant
            from <= j <= s@.len(),
            digits_end(s@, from as int) == digits_end(s@, j as int),
            !overflow ==> acc == decimal_value(s@.subrange(from as int, j as int)) && acc
                <= u32::MAX,
            overflow ==> decimal_value(s@.subrange(from as int, j as int)) > u32::MAX,
        decreases s@.len() - j,
    {
        let d = (s[j] as u32 - 48) as u64;
        assert(s@.subrange(from as int, j + 1).drop_last() =~= s@.subrange(from as int, j as int));
        if !overflow {
            acc = acc * 10 + d;
            if acc > u32::MAX as u64 {
                overflow = true;
            }
        }
        j += 1;
    }
    if j == from || overflow {
        (j, None)
    } else {
        (j, Some(acc as u32))
    }
}

impl Semver {
    /// Reads a version from the text a server gives for its version.
    pub fn parse(text: &str) -> (r: Option<Semver>)
        ensures
            r == parse_version(text@),
    {
        let s = chars_of(text);
        let (e1, major) = read_component(&s, 0);
        let major = match major {
            None => {
                return None;
            },
            Some(v) => v,
        };
        if !(e1 < s.len() && s[e1] == '.') {
            return Some(Semver { major, minor: 0, patch: 0 });
        }
        let (e2, minor) = read_component(&s, e1 + 1);
        let minor = match minor {
            None => {
                return None;
            },
            Some(v) => v,
        };
        if !(e2 < s.len() && s[e2] == '.') {
            return Some(Semver { major, minor, patch: 0 });
        }
        let (e3, patch) = read_component(&s, e2 + 1);
        match patch {
            None => None,
            Some(patch) => if e3 < s.len() && s[e3] == '.' {
                None
            } else {
                Some(Semver { major, minor, patch })
            },
        }
    }
}

/// The server version, from the values that a `SHOW SERVER_VERSION` query
/// returned, one per row: the last row's value is read.
pub fn server_version_from(rows: &Vec<String>) -> (r: Result<Semver, PsqlpackErrorKind>)
    ensures
        rows@.len() == 0 ==> (r matches Err(PsqlpackErrorKind::DatabaseError(m)) && m@
            == "Failed to retrieve version from server"@),
        rows@.len() > 0 ==> match parse_version(rows@.last()@) {
            Some(v) => r == Ok::<Semver, PsqlpackErrorKind>(v),
            None => r matches Err(PsqlpackErrorKind::FormatError(f, m)) && f@ == "SERVER_VERSION"@
                && m@ == rows@.last()@,
        },
{
    if rows.len() == 0 {
        return Err(
            PsqlpackErrorKind::DatabaseError(String::from_str("Failed to retrieve version from server")),
        );
    }
    let text = &rows[rows.len() - 1];
    match Semver::parse(text.as_str()) {
        Some(v) => Ok(v),
        None => Err(PsqlpackErrorKind::FormatError(String::from_str("SERVER_VERSION"), text.clone())),
    }
}

} // verus!
