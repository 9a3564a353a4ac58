//! A structured (JSON-shaped) value, as the decoders of this crate read it.
use vstd::prelude::*;

verus! {

/// A number as it appears on the wire.
#[derive(Debug, Clone, PartialEq, Eq)]
pub enum JsonNumber {
    /// An integer that fits in a `u64`.
    PosInt(u64),
    /// A negative integer that fits in an `i64`.
    NegInt(i64),
    /// Any other number (a fraction, an exponent, a wide integer), kept as
    /// the text it was written with.
    Other(String),
}

/// A structured value. An object keeps its members in the order they came.
#[derive(Debug, PartialEq, Eq)]
pub enum JsonValue {
    Null,
    Bool(bool),
    Number(JsonNumber),
    String(String),
    Array(Vec<JsonValue>),
    Object(Vec<(String, JsonValue)>),
}

impl Default for JsonValue {
    fn default() -> (r: JsonValue)
        ensures
            r == JsonValue::Null,
    {
        JsonValue::Null
    }
}

/// A member named `key` is in `s`, so looking it up finds one.
pub proof fn lemma_member_of_present(s: Seq<(String, JsonValue)>, key: Seq<char>, i: int)
    requires
        0 <= i < s.len(),
        s[i].0@ == key,
    ensures
        member_of(s, key) is Some,
    decreases i,
{
    if i > 0 && s[0].0@ != key {
        assert(s.drop_first()[i - 1] == s[i]);
        lemma_member_of_present(s.drop_first(), key, i - 1);
    }
}

/// The first member of `fields` named `key`.
pub open spec fn member_of(fields: Seq<(String, JsonValue)>, key: Seq<char>) -> Option<JsonValue>
    decreases fields.len(),
{
    if fields.len() == 0 {
        None
    } else if fields[0].0@ == key {
        Some(fields[0].1)
    } else {
        member_of(fields.drop_first(), key)
    }
}

/// The member `key` of `v`, if `v` is an object that has one.
pub open spec fn field(v: JsonValue, key: Seq<char>) -> Option<JsonValue> {
    match v {
        JsonValue::Object(fields) => member_of(fields@, key),
        _ => None,
    }
}

/// `a` and `b` hold the same characters.
pub fn str_eq(a: &str, b: &str) -> (r: bool)
    ensures
        r == (a@ == b@),
{
    let n = a.unicode_len();
    if n != b.unicode_len() {
        return false;
    }
    let mut i: usize = 0;
    while i < n
        invariant
            i <= n == a@.len() == b@.len(),
            forall|j: int| 0 <= j < i ==> a@[j] == b@[j],
        decreases n - i,
    {
        if a.get_char(i) != b.get_char(i) {
            return false;
        }
        i = i + 1;
    }
    assert(a@ =~= b@);
    true
}

/// The first member of `fields` named `key`.
pub fn find_member<'a>(fields: &'a Vec<(String, JsonValue)>, key: &str) -> (r: Option<&'a JsonValue>)
    ensures
        r is None <==> member_of(fields@, key@) is None,
        r is Some ==> member_of(fields@, key@) == Some(*r.unwrap()),
{
    let mut i: usize = 0;
    assert(fields@.subrange(0, fields@.len() as int) =~= fields@);
    while i < fields.len()
        invariant
            i <= fields@.len(),
            member_of(fields@, key@) == member_of(fields@.subrange(i as int, fields@.len() as int), key@),
        decreases fields.len() - i,
    {
        let ghost rest = fields@.subrange(i as int, fields@.len() as int);
        assert(rest.drop_first() =~= fields@.subrange(i + 1, fields@.len() as int));
        if str_eq(fields[i].0.as_str(), key) {
            return Some(&fields[i].1);
        }
        i = i + 1;
    }
    None
}

proof fn lemma_member_of_first(s: Seq<(String, JsonValue)>, key: Seq<char>, i: int)
    requires
        0 <= i < s.len(),
        s[i].0@ == key,
        forall|j: int| 0 <= j < i ==> (#[trigger] s[j]).0@ != key,
    ensures
        member_of(s, key) == Some(s[i].1),
    decreases i,
{
    if i > 0 {
        let t = s.drop_first();
        assert forall|j: int| 0 <= j < i - 1 implies (#[trigger] t[j]).0@ != key by {
            assert(t[j] == s[j + 1]);
        }
        lemma_member_of_first(t, key, i - 1);
    }
}

proof fn lemma_member_of_remove(s: Seq<(String, JsonValue)>, i: int, k: Seq<char>)
    requires
        0 <= i < s.len(),
        s[i].0@ != k,
    ensures
        member_of(s.remove(i), k) == member_of(s, k),
    decreases i,
{
    if i == 0 {
        assert(s.remove(0) =~= s.drop_first());
    } else {
        assert(s.remove(i)[0] == s[0]);
        assert(s.remove(i).drop_first() =~= s.drop_first().remove(i - 1));
        lemma_member_of_remove(s.drop_first(), i - 1, k);
    }
}

/// Takes the first member named `key` out of `fields`. The first member of
/// every other name stays as it was.
pub fn take_member(fields: &mut Vec<(String, JsonValue)>, key: &str) -> (r: Option<JsonValue>)
    ensures
        r == member_of(old(fields)@, key@),
        forall|k: Seq<char>| k != key@ ==> #[trigger] member_of(final(fields)@, k) == member_of(
            old(fields)@,
            k,
        ),
{
    let mut i: usize = 0;
    while i < fields.len()
        invariant
            i <= fields@.len(),
            fields@ == old(fields)@,
            forall|j: int| 0 <= j < i ==> (#[trigger] fields@[j]).0@ != key@,
        decreases fields.len() - i,
    {
        if str_eq(fields[i].0.as_str(), key) {
            proof {
                lemma_member_of_first(fields@, key@, i as int);
                assert forall|k: Seq<char>| k != key@ implies #[trigger] member_of(
                    fields@.remove(i as int),
                    k,
                ) == member_of(fields@, k) by {
                    lemma_member_of_remove(fields@, i as int, k);
                }
            }
            let (_, v) = fields.remove(i);
            return Some(v);
        }
        i = i + 1;
    }
    proof {
        assert forall|j: int| 0 <= j <= fields@.len() implies member_of(
            fields@.subrange(j, fields@.len() as int),
            key@,
        ) is None by {
            lemma_member_of_absent(fields@, key@, j);
        }
        assert(fields@.subrange(0, fields@.len() as int) =~= fields@);
    }
    None
}

proof fn lemma_member_of_absent(s: Seq<(String, JsonValue)>, key: Seq<char>, j: int)
    requires
        0 <= j <= s.len(),
        forall|m: int| 0 <= m < s.len() ==> (#[trigger] s[m]).0@ != key,
    ensures
        member_of(s.subrange(j, s.len() as int), key) is None,
    decreases s.len() - j,
{
    if j < s.len() {
        let t = s.subrange(j, s.len() as int);
        assert(t[0] == s[j]);
        assert(t.drop_first() =~= s.subrange(j + 1, s.len() as int));
        lemma_member_of_absent(s, key, j + 1);
    }
}

/// The member `key` of `v`, if `v` is an object that has one.
pub fn get_field<'a>(v: &'a JsonValue, key: &str) -> (r: Option<&'a JsonValue>)
    ensures
        r is None <==> field(*v, key@) is None,
        r is Some ==> field(*v, key@) == Some(*r.unwrap()),
{
    match v {
        JsonValue::Object(fields) => find_member(fields, key),
        _ => None,
    }
}

} // verus!
