//! Machine identity: `<machine_name><separator><entity_id>`.
//!
//! Parsing splits on the last occurrence of the separator, so names such as
//! `api.prod.eu--acme.com` are unambiguous.

use vstd::prelude::*;
use crate::sdk_error::{Error, SdkResult};
use crate::text::{
    chars_of, concat_chars, contains_chars, contains_seq, debug_quoted, debug_str, is_ascii_char,
    is_digit, occurs_at, occurs_at_exec, string_of, sub_chars,
};

verus! {

/// What a machine name may be made of.
pub const MACHINE_NAME_CHARS: &'static str = "lowercase ASCII a-z, digits, `.`, or `-`";

#[derive(Debug, Clone, PartialEq, Eq)]
pub struct MachineIdentity {
    pub machine_name: String,
    pub entity_id: String,
    pub separator: String,
}

impl View for MachineIdentity {
    type V = (Seq<char>, Seq<char>, Seq<char>);

    open spec fn view(&self) -> (Seq<char>, Seq<char>, Seq<char>) {
        (self.machine_name@, self.entity_id@, self.separator@)
    }
}

/// Greatest `i <= from` at which `p` occurs in `s`.
pub open spec fn last_occurrence_from(s: Seq<char>, p: Seq<char>, from: int) -> Option<int>
    decreases from + 1,
{
    if from < 0 {
        None
    } else if occurs_at(s, p, from) {
        Some(from)
    } else {
        last_occurrence_from(s, p, from - 1)
    }
}

proof fn lemma_last_occurrence(s: Seq<char>, p: Seq<char>, from: int)
    ensures
        last_occurrence_from(s, p, from) matches Some(i) ==> occurs_at(s, p, i),
    decreases from + 1,
{
    if from >= 0 && !occurs_at(s, p, from) {
        lemma_last_occurrence(s, p, from - 1);
    }
}

/// Start of the last occurrence of `p` in `s` (`str::rsplit_once`).
pub open spec fn last_occurrence(s: Seq<char>, p: Seq<char>) -> Option<int> {
    last_occurrence_from(s, p, s.len() - p.len())
}

pub open spec fn name_char_ok(c: char) -> bool {
    ('a' <= c && c <= 'z') || is_digit(c) || c == '.' || c == '-'
}

/// Why `name` is not a machine name, if it is not.
pub open spec fn machine_name_problem(name: Seq<char>, sep: Seq<char>) -> Option<Seq<char>> {
    if name.len() == 0 {
        Some("machine name must not be empty"@)
    } else if contains_seq(name, sep) {
        Some(
            "machine name "@ + debug_quoted(name) + " must not contain separator "@ + debug_quoted(
                sep,
            ),
        )
    } else if !(forall|i: int| 0 <= i < name.len() ==> #[trigger] name_char_ok(name[i])) {
        Some("machine name "@ + debug_quoted(name) + " must be "@ + MACHINE_NAME_CHARS@)
    } else {
        None
    }
}

/// Why `entity` is not an entity id, if it is not.
pub open spec fn entity_id_problem(entity: Seq<char>, sep: Seq<char>) -> Option<Seq<char>> {
    if entity.len() == 0 {
        Some("entity id must not be empty"@)
    } else if contains_seq(entity, sep) {
        Some(
            "entity id "@ + debug_quoted(entity) + " must not contain separator "@ + debug_quoted(
                sep,
            ),
        )
    } else if !(forall|i: int|
        0 <= i < entity.len() ==> is_ascii_char(#[trigger] entity[i]) && !('A' <= entity[i]
            && entity[i] <= 'Z')) {
        Some("entity id "@ + debug_quoted(entity) + " must be lowercase ASCII"@)
    } else {
        None
    }
}

/// Why the three parts do not make an identity, if they do not.
pub open spec fn identity_problem(name: Seq<char>, entity: Seq<char>, sep: Seq<char>) -> Option<
    Seq<char>,
> {
    if sep.len() == 0 {
        Some("separator must not be empty"@)
    } else if machine_name_problem(name, sep) is Some {
        machine_name_problem(name, sep)
    } else {
        entity_id_problem(entity, sep)
    }
}

/// The outcome of parsing `raw` with `sep`: the three parts, or the message.
pub open spec fn parse_identity_spec(raw: Seq<char>, sep: Seq<char>) -> Result<
    (Seq<char>, Seq<char>, Seq<char>),
    Seq<char>,
> {
    if sep.len() == 0 {
        Err("separator must not be empty"@)
    } else {
        match last_occurrence(raw, sep) {
            None => Err(
                debug_quoted(raw) + " does not contain separator "@ + debug_quoted(sep),
            ),
            Some(i) => {
                let name = raw.take(i);
                let entity = raw.skip(i + sep.len());
                match identity_problem(name, entity, sep) {
                    Some(m) => Err(m),
                    None => Ok((name, entity, sep)),
                }
            },
        }
    }
}

/// An identity error carrying `m`.
pub open spec fn identity_error(e: Error, m: Seq<char>) -> bool {
    e matches Error::Identity(s) && s@ == m
}

fn quote_join(a: &str, x: &str, b: &str, y: &str) -> (r: String)
    ensures
        r@ == a@ + debug_quoted(x@) + b@ + debug_quoted(y@),
{
    let qx = debug_str(x);
    let qy = debug_str(y);
    let v = concat_chars(&chars_of(a), &chars_of(qx.as_str()));
    let v = concat_chars(&v, &chars_of(b));
    let v = concat_chars(&v, &chars_of(qy.as_str()));
    string_of(&v)
}

#[verifier::loop_isolation(false)]
fn validate_machine_name(name: &str, separator: &str) -> (r: SdkResult<()>)
    ensures
        match r {
            Ok(_) => machine_name_problem(name@, separator@) is None,
            Err(e) => machine_name_problem(name@, separator@) matches Some(m) && identity_error(e, m),
        },
{
    let n = chars_of(name);
    if n.len() == 0 {
        return Err(Error::identity("machine name must not be empty"));
    }
    if contains_chars(&n, &chars_of(separator)) {
        let m = quote_join("machine name ", name, " must not contain separator ", separator);
        return Err(Error::Identity(m));
    }
    let mut i: usize = 0;
    while i < n.len()
        invariant
            i <= n@.len(),
            n@ == name@,
            forall|k: int| 0 <= k < i ==> #[trigger] name_char_ok(n@[k]),
        decreases n.len() - i,
    {
        let c = n[i];
        if !(('a' <= c && c <= 'z') || ('0' <= c && c <= '9') || c == '.' || c == '-') {
            assert(!name_char_ok(n@[i as int]));
            let q = debug_str(name);
            let v = concat_chars(&chars_of("machine name "), &chars_of(q.as_str()));
            let v = concat_chars(&v, &chars_of(" must be "));
            let v = concat_chars(&v, &chars_of(MACHINE_NAME_CHARS));
            return Err(Error::Identity(string_of(&v)));
        }
        i += 1;
    }
    Ok(())
}

#[verifier::loop_isolation(false)]
fn validate_entity_id(entity_id: &str, separator: &str) -> (r: SdkResult<()>)
    ensures
        match r {
            Ok(_) => entity_id_problem(entity_id@, separator@) is None,
            Err(e) => entity_id_problem(entity_id@, separator@) matches Some(m) && identity_error(
                e,
                m,
            ),
        },
{
    let n = chars_of(entity_id);
    if n.len() == 0 {
        return Err(Error::identity("entity id must not be empty"));
    }
    if contains_chars(&n, &chars_of(separator)) {
        let m = quote_join("entity id ", entity_id, " must not contain separator ", separator);
        return Err(Error::Identity(m));
    }
    let mut i: usize = 0;
    while i < n.len()
        invariant
            i <= n@.len(),
            n@ == entity_id@,
            forall|k: int|
                0 <= k < i ==> is_ascii_char(#[trigger] n@[k]) && !('A' <= n@[k] && n@[k] <= 'Z'),
        decreases n.len() - i,
    {
        let c = n[i];
        if (c as u32) >= 128 || ('A' <= c && c <= 'Z') {
            assert(!(is_ascii_char(n@[i as int]) && !('A' <= n@[i as int] && n@[i as int] <= 'Z')));
            let q = debug_str(entity_id);
            let v = concat_chars(&chars_of("entity id "), &chars_of(q.as_str()));
            let v = concat_chars(&v, &chars_of(" must be lowercase ASCII"));
            return Err(Error::Identity(string_of(&v)));
        }
        i += 1;
    }
    Ok(())
}

/// Start of the last occurrence of `p` in `s`.
pub fn rfind_chars(s: &Vec<char>, p: &Vec<char>) -> (r: Option<usize>)
    ensures
        match r {
            Some(i) => last_occurrence(s@, p@) == Some(i as int),
            None => last_occurrence(s@, p@) is None,
        },
{
    if p.len() > s.len() {
        assert(last_occurrence_from(s@, p@, s@.len() - p@.len()) is None);
        return None;
    }
    let mut i: usize = s.len() - p.len();
    loop
        invariant
            i <= s@.len() - p@.len(),
            p@.len() <= s@.len(),
            last_occurrence(s@, p@) == last_occurrence_from(s@, p@, i as int),
        decreases i,
    {
        if occurs_at_exec(s, p, i) {
            return Some(i);
        }
        if i == 0 {
            assert(last_occurrence_from(s@, p@, -1) is None);
            return None;
        }
        i -= 1;
    }
}

impl MachineIdentity {
    /// The identity made of the three parts, if they are valid.
    pub fn new(machine_name: &str, entity_id: &str, separator: &str) -> (r: SdkResult<
        MachineIdentity,
    >)
        ensures
            match r {
                Ok(id) => identity_problem(machine_name@, entity_id@, separator@) is None && id@ == (
                machine_name@, entity_id@, separator@),
                Err(e) => identity_problem(machine_name@, entity_id@, separator@) matches Some(m)
                    && identity_error(e, m),
            },
    {
        let identity = MachineIdentity {
            machine_name: string_of(&chars_of(machine_name)),
            entity_id: string_of(&chars_of(entity_id)),
            separator: string_of(&chars_of(separator)),
        };
        match identity.validate() {
            Ok(()) => Ok(identity),
            Err(e) => Err(e),
        }
    }

    /// Parses `name<sep>entity`, splitting on the last `sep`.
    pub fn parse(raw: &str, separator: &str) -> (r: SdkResult<MachineIdentity>)
        ensures
            match r {
                Ok(id) => parse_identity_spec(raw@, separator@) == Ok::<
                    (Seq<char>, Seq<char>, Seq<char>),
                    Seq<char>,
                >(id@),
                Err(e) => parse_identity_spec(raw@, separator@) matches Err(m) && identity_error(
                    e,
                    m,
                ),
            },
    {
        if separator.is_empty() {
            return Err(Error::identity("separator must not be empty"));
        }
        let s = chars_of(raw);
        let p = chars_of(separator);
        match rfind_chars(&s, &p) {
            None => {
                let qr = debug_str(raw);
                let qs = debug_str(separator);
                let v = concat_chars(&chars_of(qr.as_str()), &chars_of(" does not contain separator "));
                let v = concat_chars(&v, &chars_of(qs.as_str()));
                Err(Error::Identity(string_of(&v)))
            },
            Some(i) => {
                proof {
                    lemma_last_occurrence(s@, p@, s@.len() - p@.len());
                }
                let name = string_of(&sub_chars(&s, 0, i));
                let entity = string_of(&sub_chars(&s, i + p.len(), s.len()));
                assert(name@ =~= raw@.take(i as int));
                assert(entity@ =~= raw@.skip(i + separator@.len()));
                MachineIdentity::new(name.as_str(), entity.as_str(), separator)
            },
        }
    }

    /// `name<sep>entity`.
    pub fn as_str(&self) -> (r: String)
        ensures
            r@ == self.machine_name@ + self.separator@ + self.entity_id@,
    {
        let v = concat_chars(&chars_of(self.machine_name.as_str()), &chars_of(self.separator.as_str()));
        let v = concat_chars(&v, &chars_of(self.entity_id.as_str()));
        string_of(&v)
    }

    /// Checks the separator and both parts.
    pub fn validate(&self) -> (r: SdkResult<()>)
        ensures
            match r {
                Ok(_) => identity_problem(self.machine_name@, self.entity_id@, self.separator@) is None,
                Err(e) => identity_problem(self.machine_name@, self.entity_id@, self.separator@) matches Some(
                    m,
                ) && identity_error(e, m),
            },
    {
        if self.separator.as_str().is_empty() {
            return Err(Error::identity("separator must not be empty"));
        }
        validate_machine_name(self.machine_name.as_str(), self.separator.as_str())?;
        validate_entity_id(self.entity_id.as_str(), self.separator.as_str())?;
        Ok(())
    }

    /// The identity as `Display` prints it.
    pub fn to_string(&self) -> (r: String)
        ensures
            r@ == self.machine_name@ + self.separator@ + self.entity_id@,
    {
        self.as_str()
    }
}


proof fn lemma_last_occurrence_is(s: Seq<char>, p: Seq<char>, from: int, i0: int)
    requires
        0 <= i0 <= from,
        occurs_at(s, p, i0),
        forall|k: int| i0 < k <= from ==> !#[trigger] occurs_at(s, p, k),
    ensures
        last_occurrence_from(s, p, from) == Some(i0),
    decreases from - i0,
{
    if from > i0 {
        lemma_last_occurrence_is(s, p, from - 1, i0);
    }
}

/// Formatting a valid identity and parsing it back gives the same parts,
/// unless the separator also occurs straddling the separator and the entity
/// id (for example name `a`, entity `-b`, separator `--`).
pub proof fn law_identity_roundtrip(name: Seq<char>, entity: Seq<char>, sep: Seq<char>)
    requires
        identity_problem(name, entity, sep) is None,
        forall|k: int|
            name.len() < k < name.len() + sep.len() ==> !#[trigger] occurs_at(
                name + sep + entity,
                sep,
                k,
            ),
    ensures
        parse_identity_spec(name + sep + entity, sep) == Ok::<
            (Seq<char>, Seq<char>, Seq<char>),
            Seq<char>,
        >((name, entity, sep)),
{
    let whole = name + sep + entity;
    let i0 = name.len() as int;
    assert(whole.subrange(i0, i0 + sep.len()) =~= sep);
    assert forall|k: int| i0 < k <= whole.len() - sep.len() implies !#[trigger] occurs_at(
        whole,
        sep,
        k,
    ) by {
        if k >= i0 + sep.len() && occurs_at(whole, sep, k) {
            let j = k - i0 - sep.len();
            assert(entity.subrange(j, j + sep.len()) =~= whole.subrange(k, k + sep.len()));
            assert(occurs_at(entity, sep, j));
        }
    }
    lemma_last_occurrence_is(whole, sep, whole.len() - sep.len(), i0);
    assert(whole.take(i0) =~= name);
    assert(whole.skip(i0 + sep.len()) =~= entity);
}

/// A machine name is valid for a separator exactly when it is non-empty,
/// does not contain the separator, and is made only of `a`-`z`, `0`-`9`, `.`
/// and `-`.
pub proof fn law_machine_name_alphabet(name: Seq<char>, sep: Seq<char>)
    ensures
        (machine_name_problem(name, sep) is None) <==> (name.len() > 0 && !contains_seq(name, sep)
            && forall|i: int|
            0 <= i < name.len() ==> {
                let c = #[trigger] name[i];
                ('a' <= c && c <= 'z') || ('0' <= c && c <= '9') || c == '.' || c == '-'
            }),
{
    if forall|i: int| 0 <= i < name.len() ==> #[trigger] name_char_ok(name[i]) {
        assert forall|i: int| 0 <= i < name.len() implies {
            let c = #[trigger] name[i];
            ('a' <= c && c <= 'z') || ('0' <= c && c <= '9') || c == '.' || c == '-'
        } by {
            assert(name_char_ok(name[i]));
        }
    }
    if forall|i: int|
        0 <= i < name.len() ==> {
            let c = #[trigger] name[i];
            ('a' <= c && c <= 'z') || ('0' <= c && c <= '9') || c == '.' || c == '-'
        } {
        assert forall|i: int| 0 <= i < name.len() implies #[trigger] name_char_ok(name[i]) by {
            let c = name[i];
            assert(('a' <= c && c <= 'z') || ('0' <= c && c <= '9') || c == '.' || c == '-');
        }
    }
}

/// An identity of a valid name and entity id comes out of `new` unchanged,
/// whichever of the allowed characters the name uses.
pub proof fn law_valid_parts_make_identity(name: Seq<char>, entity: Seq<char>, sep: Seq<char>)
    requires
        sep.len() > 0,
        name.len() > 0,
        !contains_seq(name, sep),
        forall|i: int|
            0 <= i < name.len() ==> {
                let c = #[trigger] name[i];
                ('a' <= c && c <= 'z') || ('0' <= c && c <= '9') || c == '.' || c == '-'
            },
        entity_id_problem(entity, sep) is None,
    ensures
        identity_problem(name, entity, sep) is None,
{
    law_machine_name_alphabet(name, sep);
}

} // verus!
