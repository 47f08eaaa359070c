//! A JSON document as the analysis reads it: objects keep their members in
//! order, and numbers are told apart by whether they are whole and unsigned,
//! whole and negative, or fractional.
use vstd::prelude::*;
use crate::text::{chars_of, str_eq};

verus! {

#[derive(Debug)]
pub enum JsonValue {
    Null,
    Bool(bool),
    /// A whole number that fits in `u64`.
    UInt(u64),
    /// A negative whole number.
    Int(i64),
    /// A number with a fractional part or an exponent, kept as its decimal text.
    Float(String),
    String(String),
    Array(Vec<JsonValue>),
    Object(Vec<(String, JsonValue)>),
}

/// The value of the first member named `k` among `members`.
pub open spec fn member(members: Seq<(String, JsonValue)>, k: Seq<char>) -> Option<JsonValue>
    decreases members.len(),
{
    if members.len() == 0 {
        None
    } else if members[0].0@ == k {
        Some(members[0].1)
    } else {
        member(members.drop_first(), k)
    }
}

impl JsonValue {
    /// The members of an object.
    pub open spec fn spec_members(self) -> Option<Seq<(String, JsonValue)>> {
        match self {
            JsonValue::Object(m) => Some(m@),
            _ => None,
        }
    }

    /// The member named `k` of an object; nothing for other values.
    pub open spec fn spec_get(self, k: Seq<char>) -> Option<JsonValue> {
        match self {
            JsonValue::Object(m) => member(m@, k),
            _ => None,
        }
    }

    /// The text of a string value.
    pub open spec fn spec_str(self) -> Option<Seq<char>> {
        match self {
            JsonValue::String(s) => Some(s@),
            _ => None,
        }
    }

    /// The number of elements of an array.
    pub open spec fn spec_array_len(self) -> Option<nat> {
        match self {
            JsonValue::Array(a) => Some(a@.len()),
            _ => None,
        }
    }

    /// The members of an object, in order.
    pub fn as_object(&self) -> (r: Option<&Vec<(String, JsonValue)>>)
        ensures
            match r {
                Some(m) => self.spec_members() == Some(m@),
                None => self.spec_members() is None,
            },
    {
        match self {
            JsonValue::Object(m) => Some(m),
            _ => None,
        }
    }

    /// The text of a string value.
    pub fn as_str(&self) -> (r: Option<&String>)
        ensures
            match r {
                Some(s) => self.spec_str() == Some(s@),
                None => self.spec_str() is None,
            },
    {
        match self {
            JsonValue::String(s) => Some(s),
            _ => None,
        }
    }

    /// The value of a whole unsigned number.
    pub fn as_u64(&self) -> (r: Option<u64>)
        ensures
            r == (match self {
                JsonValue::UInt(n) => Some(*n),
                _ => None::<u64>,
            }),
    {
        match self {
            JsonValue::UInt(n) => Some(*n),
            _ => None,
        }
    }

    /// The value of a boolean.
    pub fn as_bool(&self) -> (r: Option<bool>)
        ensures
            r == (match self {
                JsonValue::Bool(b) => Some(*b),
                _ => None::<bool>,
            }),
    {
        match self {
            JsonValue::Bool(b) => Some(*b),
            _ => None,
        }
    }

    /// The elements of an array.
    pub fn as_array(&self) -> (r: Option<&Vec<JsonValue>>)
        ensures
            match r {
                Some(a) => self.spec_array_len() == Some(a@.len()) && *self == JsonValue::Array(*a),
                None => self.spec_array_len() is None,
            },
    {
        match self {
            JsonValue::Array(a) => Some(a),
            _ => None,
        }
    }

    /// The member named `key` of an object; nothing for other values.
    pub fn get(&self, key: &str) -> (r: Option<&JsonValue>)
        ensures
            match r {
                Some(v) => self.spec_get(key@) == Some(*v),
                None => self.spec_get(key@) is None,
            },
    {
        match self {
            JsonValue::Object(m) => {
                let mut i: usize = 0;
                assert(m@.skip(0) =~= m@);
                assert(self.spec_get(key@) == member(m@, key@));
                while i < m.len()
                    invariant
                        i <= m@.len(),
                        member(m@, key@) == member(m@.skip(i as int), key@),
                        self.spec_get(key@) == member(m@, key@),
                    decreases m@.len() - i,
                {
                    proof {
                        assert(m@.skip(i as int).drop_first() =~= m@.skip(i + 1));
                        assert(m@.skip(i as int)[0] == m@[i as int]);
                    }
                    if m[i].0 == key.to_owned() {
                        assert(member(m@.skip(i as int), key@) == Some(m@[i as int].1));
                        let r = &m[i].1;
                        assert(*r == m@[i as int].1);
                        assert(self.spec_get(key@) == member(m@, key@));
                        return Some(r);
                    }
                    i = i + 1;
                }
                None
            },
            _ => None,
        }
    }
}

/// The order of texts by character code, the first difference deciding and a proper
/// prefix coming first; it is the order of their UTF-8 bytes, which `String` compares.
pub open spec fn text_lt(a: Seq<char>, b: Seq<char>) -> bool
    decreases a.len(),
{
    if b.len() == 0 {
        false
    } else if a.len() == 0 {
        true
    } else if a[0] != b[0] {
        (a[0] as int) < (b[0] as int)
    } else {
        text_lt(a.drop_first(), b.drop_first())
    }
}

pub proof fn lemma_text_lt_irreflexive(a: Seq<char>)
    ensures
        !text_lt(a, a),
    decreases a.len(),
{
    if a.len() > 0 {
        lemma_text_lt_irreflexive(a.drop_first());
    }
}

pub proof fn lemma_text_lt_transitive(a: Seq<char>, b: Seq<char>, c: Seq<char>)
    requires
        text_lt(a, b),
        text_lt(b, c),
    ensures
        text_lt(a, c),
    decreases a.len(),
{
    if a.len() > 0 && b.len() > 0 && c.len() > 0 {
        if a[0] == b[0] && b[0] == c[0] {
            lemma_text_lt_transitive(a.drop_first(), b.drop_first(), c.drop_first());
        }
    }
}

pub proof fn lemma_text_lt_total(a: Seq<char>, b: Seq<char>)
    ensures
        a == b || text_lt(a, b) || text_lt(b, a),
    decreases a.len(),
{
    if a.len() > 0 && b.len() > 0 && a[0] == b[0] {
        lemma_text_lt_total(a.drop_first(), b.drop_first());
        if a.drop_first() == b.drop_first() {
            assert(a =~= seq![a[0]] + a.drop_first());
            assert(b =~= seq![b[0]] + b.drop_first());
        }
    } else if a.len() == 0 && b.len() == 0 {
        assert(a =~= b);
    } else if a.len() > 0 && b.len() > 0 {
        assert((a[0] as int) != (b[0] as int));
    }
}

/// Whether `a` comes before `b` in the order of their bytes.
pub fn text_less(a: &str, b: &str) -> (r: bool)
    ensures
        r == text_lt(a@, b@),
{
    let av = chars_of(a);
    let bv = chars_of(b);
    let mut i: usize = 0;
    assert(av@.skip(0) =~= av@ && bv@.skip(0) =~= bv@);
    while i < av.len() && i < bv.len() && av[i] == bv[i]
        invariant
            i <= av@.len(),
            i <= bv@.len(),
            text_lt(av@, bv@) == text_lt(av@.skip(i as int), bv@.skip(i as int)),
        decreases av@.len() - i,
    {
        proof {
            assert(av@.skip(i as int).drop_first() =~= av@.skip(i + 1));
            assert(bv@.skip(i as int).drop_first() =~= bv@.skip(i + 1));
        }
        i = i + 1;
    }
    if i == bv.len() {
        false
    } else if i == av.len() {
        true
    } else {
        av[i] < bv[i]
    }
}

/// Members named in strictly increasing order, as a key-ordered JSON map keeps them.
pub open spec fn keys_sorted(m: Seq<(String, JsonValue)>) -> bool {
    forall|i: int, j: int| 0 <= i < j < m.len() ==> text_lt(#[trigger] m[i].0@, #[trigger] m[j].0@)
}

proof fn lemma_member_at(m: Seq<(String, JsonValue)>, i: int)
    requires
        0 <= i < m.len(),
        forall|j: int| 0 <= j < i ==> #[trigger] m[j].0@ != m[i].0@,
    ensures
        member(m, m[i].0@) == Some(m[i].1),
    decreases i,
{
    if i > 0 {
        assert forall|j: int| 0 <= j < i - 1 implies #[trigger] m.drop_first()[j].0@ != m.drop_first()[i - 1].0@ by {
            assert(m.drop_first()[j] == m[j + 1]);
        }
        lemma_member_at(m.drop_first(), i - 1);
    }
}

proof fn lemma_member_absent(m: Seq<(String, JsonValue)>, k: Seq<char>)
    requires
        forall|j: int| 0 <= j < m.len() ==> #[trigger] m[j].0@ != k,
    ensures
        member(m, k) is None,
    decreases m.len(),
{
    if m.len() > 0 {
        assert forall|j: int| 0 <= j < m.drop_first().len() implies #[trigger] m.drop_first()[j].0@ != k by {
            assert(m.drop_first()[j] == m[j + 1]);
        }
        lemma_member_absent(m.drop_first(), k);
    }
}

/// In a key-ordered object, the member named `k` is the one at the position of that name.
pub proof fn lemma_sorted_member(m: Seq<(String, JsonValue)>, k: Seq<char>)
    requires
        keys_sorted(m),
    ensures
        forall|i: int| 0 <= i < m.len() && #[trigger] m[i].0@ == k ==> member(m, k) == Some(m[i].1),
        (forall|i: int| 0 <= i < m.len() ==> #[trigger] m[i].0@ != k) ==> member(m, k) is None,
{
    assert forall|i: int| 0 <= i < m.len() && #[trigger] m[i].0@ == k implies member(m, k) == Some(m[i].1) by {
        assert forall|j: int| 0 <= j < i implies #[trigger] m[j].0@ != m[i].0@ by {
            lemma_text_lt_irreflexive(m[i].0@);
            assert(text_lt(m[j].0@, m[i].0@));
        }
        lemma_member_at(m, i);
    }
    if forall|i: int| 0 <= i < m.len() ==> #[trigger] m[i].0@ != k {
        lemma_member_absent(m, k);
    }
}

/// Stores `value` under `key` in a key-ordered object, as `serde_json::Map::insert`
/// does: a present key gets the new value in its place, a new key goes where the order
/// puts it.
pub fn object_insert(members: &mut Vec<(String, JsonValue)>, key: String, value: JsonValue)
    requires
        keys_sorted(old(members)@),
    ensures
        keys_sorted(final(members)@),
        member(final(members)@, key@) == Some(value),
        forall|k: Seq<char>| k != key@ ==> member(#[trigger] final(members)@, k) == member(old(members)@, k),
        final(members)@.len() == old(members)@.len() + (if member(old(members)@, key@) is Some { 0int } else { 1int }),
{
    let ghost m0 = members@;
    proof {
        lemma_sorted_member(m0, key@);
    }
    let n = members.len();
    let mut i: usize = 0;
    while i < n && text_less(members[i].0.as_str(), key.as_str())
        invariant
            members@ == m0,
            n == m0.len(),
            i <= n,
            forall|j: int| 0 <= j < i ==> text_lt(#[trigger] m0[j].0@, key@),
        decreases n - i,
    {
        i = i + 1;
    }
    let ghost key_v = key@;
    if i < n && str_eq(members[i].0.as_str(), key.as_str()) {
        proof {
            assert(m0[i as int].0@ == key_v);
        }
        members.set(i, (key, value));
        proof {
            let m1 = members@;
            assert(keys_sorted(m1)) by {
                assert forall|a: int, b: int| 0 <= a < b < m1.len() implies text_lt(#[trigger] m1[a].0@, #[trigger] m1[b].0@) by {
                    assert(m1[a].0@ == m0[a].0@);
                    assert(m1[b].0@ == m0[b].0@);
                }
            }
            lemma_sorted_member(m1, key_v);
            assert(m1[i as int].0@ == key_v);
            assert forall|k: Seq<char>| k != key_v implies member(#[trigger] members@, k) == member(m0, k) by {
                lemma_sorted_member(m1, k);
                lemma_sorted_member(m0, k);
                assert forall|j: int| 0 <= j < m1.len() implies (m1[j].0@ == k <==> m0[j].0@ == k) by {
                    assert(m1[j].0@ == m0[j].0@);
                }
                if exists|j: int| 0 <= j < m0.len() && #[trigger] m0[j].0@ == k {
                    let j = choose|j: int| 0 <= j < m0.len() && #[trigger] m0[j].0@ == k;
                    assert(j != i);
                    assert(m1[j] == m0[j]);
                }
            }
        }
    } else {
        proof {
            if i < n {
                lemma_text_lt_total(m0[i as int].0@, key_v);
                assert(m0[i as int].0@ != key_v);
                assert(text_lt(key_v, m0[i as int].0@));
            }
            assert forall|j: int| 0 <= j < m0.len() implies #[trigger] m0[j].0@ != key_v by {
                if j < i {
                    lemma_text_lt_irreflexive(key_v);
                } else {
                    if j > i {
                        lemma_text_lt_transitive(key_v, m0[i as int].0@, m0[j].0@);
                    }
                    lemma_text_lt_irreflexive(key_v);
                }
            }
        }
        members.insert(i, (key, value));
        proof {
            let m1 = members@;
            assert(m1 =~= m0.take(i as int).push((key, value)) + m0.skip(i as int));
            assert(keys_sorted(m1)) by {
                assert forall|a: int, b: int| 0 <= a < b < m1.len() implies text_lt(#[trigger] m1[a].0@, #[trigger] m1[b].0@) by {
                    if b < i {
                        assert(m1[a] == m0[a] && m1[b] == m0[b]);
                    } else if b == i {
                        assert(m1[a] == m0[a]);
                    } else if a < i {
                        assert(m1[a] == m0[a] && m1[b] == m0[b - 1]);
                        if i < n {
                            lemma_text_lt_transitive(m0[a].0@, key_v, m0[i as int].0@);
                            if b - 1 > i {
                                lemma_text_lt_transitive(m0[a].0@, m0[i as int].0@, m0[b - 1].0@);
                            }
                        }
                    } else if a == i {
                        assert(m1[b] == m0[b - 1]);
                        if b - 1 > i {
                            lemma_text_lt_transitive(key_v, m0[i as int].0@, m0[b - 1].0@);
                        }
                    } else {
                        assert(m1[a] == m0[a - 1] && m1[b] == m0[b - 1]);
                    }
                }
            }
            lemma_sorted_member(m1, key_v);
            assert(m1[i as int].0@ == key_v);
            assert forall|k: Seq<char>| k != key_v implies member(#[trigger] members@, k) == member(m0, k) by {
                lemma_sorted_member(m1, k);
                lemma_sorted_member(m0, k);
                if exists|j: int| 0 <= j < m0.len() && #[trigger] m0[j].0@ == k {
                    let j = choose|j: int| 0 <= j < m0.len() && #[trigger] m0[j].0@ == k;
                    if j < i {
                        assert(m1[j] == m0[j]);
                    } else {
                        assert(m1[j + 1] == m0[j]);
                    }
                } else {
                    assert forall|j: int| 0 <= j < m1.len() implies #[trigger] m1[j].0@ != k by {
                        if j < i {
                            assert(m1[j] == m0[j]);
                        } else if j > i {
                            assert(m1[j] == m0[j - 1]);
                        }
                    }
                }
            }
        }
    }
}

/// Two JSON values that hold the same document: the same kind, the same texts and
/// numbers, arrays and objects of the same length whose members have the same names and
/// hold the same documents.
pub open spec fn json_same(a: JsonValue, b: JsonValue) -> bool
    decreases a,
{
    match a {
        JsonValue::Array(x) => match b {
            JsonValue::Array(y) => x@.len() == y@.len() && forall|i: int|
                0 <= i < x@.len() ==> json_same(#[trigger] x@[i], y@[i]),
            _ => false,
        },
        JsonValue::Object(x) => match b {
            JsonValue::Object(y) => x@.len() == y@.len() && forall|i: int|
                0 <= i < x@.len() ==> (#[trigger] x@[i]).0@ == y@[i].0@ && json_same(x@[i].1, y@[i].1),
            _ => false,
        },
        JsonValue::String(s) => b matches JsonValue::String(t) && s@ == t@,
        JsonValue::Float(s) => b matches JsonValue::Float(t) && s@ == t@,
        JsonValue::Null => b is Null,
        JsonValue::Bool(x) => b matches JsonValue::Bool(y) && x == y,
        JsonValue::UInt(x) => b matches JsonValue::UInt(y) && x == y,
        JsonValue::Int(x) => b matches JsonValue::Int(y) && x == y,
    }
}

/// A copy of a JSON value that holds the same document.
pub fn json_clone(v: &JsonValue) -> (r: JsonValue)
    ensures
        json_same(r, *v),
    decreases v,
{
    match v {
        JsonValue::Null => JsonValue::Null,
        JsonValue::Bool(b) => JsonValue::Bool(*b),
        JsonValue::UInt(n) => JsonValue::UInt(*n),
        JsonValue::Int(n) => JsonValue::Int(*n),
        JsonValue::Float(s) => JsonValue::Float(s.clone()),
        JsonValue::String(s) => JsonValue::String(s.clone()),
        JsonValue::Array(items) => {
            let mut out: Vec<JsonValue> = Vec::new();
            let mut i: usize = 0;
            while i < items.len()
                invariant
                    *v == JsonValue::Array(*items),
                    i <= items@.len(),
                    out@.len() == i,
                    forall|j: int| 0 <= j < i ==> json_same(#[trigger] out@[j], items@[j]),
                decreases items@.len() - i,
            {
                proof {
                    assert(decreases_to!(*v => (*v)->Array_0));
                    assert(decreases_to!(*items => items@));
                    assert(decreases_to!(items@ => items@[i as int]));
                }
                let c = json_clone(&items[i]);
                out.push(c);
                i = i + 1;
            }
            JsonValue::Array(out)
        },
        JsonValue::Object(members) => {
            let mut out: Vec<(String, JsonValue)> = Vec::new();
            let mut i: usize = 0;
            while i < members.len()
                invariant
                    *v == JsonValue::Object(*members),
                    i <= members@.len(),
                    out@.len() == i,
                    forall|j: int| 0 <= j < i ==> (#[trigger] out@[j]).0@ == members@[j].0@ && json_same(out@[j].1, members@[j].1),
                decreases members@.len() - i,
            {
                proof {
                    assert(decreases_to!(*v => (*v)->Object_0));
                    assert(decreases_to!(*members => members@));
                    assert(decreases_to!(members@ => members@[i as int]));
                    assert(decreases_to!(members@[i as int] => members@[i as int].1));
                }
                let c = json_clone(&members[i].1);
                out.push((members[i].0.clone(), c));
                i = i + 1;
            }
            JsonValue::Object(out)
        },
    }
}

} // verus!
