use vstd::prelude::*;

verus! {

/// A non-integral JSON number, held as what the reports read of it: its value
/// truncated toward zero (saturating at the bounds of `i64`) and its text.
pub struct FloatNumber {
    pub whole: i64,
    pub text: String,
}

/// A JSON document. An object keeps its entries in the order the document
/// gives them.
pub enum Json {
    Null,
    Bool(bool),
    /// An integral number (the JSON integers fit in `i128`).
    Int(i128),
    Float(FloatNumber),
    Str(String),
    Array(Vec<Json>),
    Object(Vec<(String, Json)>),
}

/// The sentinel that stands for an absent or non-string text field.
pub open spec fn none_text() -> Seq<char> {
    seq!['(', 'n', 'o', 'n', 'e', ')']
}

/// Whether entry `i` is the first one of `fields` under `key`.
pub open spec fn is_first_key(fields: Seq<(String, Json)>, key: Seq<char>, i: int) -> bool {
    &&& 0 <= i < fields.len()
    &&& fields[i].0@ == key
    &&& forall|j: int| 0 <= j < i ==> fields[j].0@ != key
}

/// The value stored under `key` in an object's entries: the first entry
/// with that key, if any.
pub open spec fn lookup(fields: Seq<(String, Json)>, key: Seq<char>) -> Option<Json> {
    if exists|i: int| is_first_key(fields, key, i) {
        Some(fields[choose|i: int| is_first_key(fields, key, i)].1)
    } else {
        None
    }
}

/// The text of a value when it is a JSON string, else the sentinel.
pub open spec fn text_or_none(v: Option<Json>) -> Seq<char> {
    match v {
        Some(Json::Str(s)) => s@,
        _ => none_text(),
    }
}

/// `n` held within the bounds of `i32`.
pub open spec fn clamp_i32(n: int) -> i32 {
    if n < i32::MIN {
        i32::MIN
    } else if n > i32::MAX {
        i32::MAX
    } else {
        n as i32
    }
}

/// A numeric value as a signed 32-bit integer: truncated toward zero and
/// saturated; absent when the value is missing or not a number.
pub open spec fn i32_of(v: Option<Json>) -> Option<i32> {
    match v {
        Some(Json::Int(n)) => Some(clamp_i32(n as int)),
        Some(Json::Float(f)) => Some(clamp_i32(f.whole as int)),
        _ => None,
    }
}

/// A non-negative integer that fits in `u64`, as an unsigned 32-bit integer
/// (its low 32 bits); absent for anything else.
pub open spec fn u32_of(v: Option<Json>) -> Option<u32> {
    match v {
        Some(Json::Int(n)) => if 0 <= n <= u64::MAX {
            Some((n % 0x1_0000_0000) as u32)
        } else {
            None
        },
        _ => None,
    }
}

proof fn first_key_unique(fields: Seq<(String, Json)>, key: Seq<char>, i: int, k: int)
    requires
        is_first_key(fields, key, i),
        is_first_key(fields, key, k),
    ensures
        i == k,
{
    if i < k {
        assert(fields[i].0@ != key);
    } else if k < i {
        assert(fields[k].0@ != key);
    }
}

/// The position of the first entry of `fields` under `key`.
pub fn lookup_index(fields: &Vec<(String, Json)>, key: &str) -> (r: Option<usize>)
    ensures
        match r {
            Some(i) => is_first_key(fields@, key@, i as int) && lookup(fields@, key@) == Some(
                fields@[i as int].1,
            ),
            None => lookup(fields@, key@) == None::<Json>,
        },
{
    let k = String::from_str(key);
    let mut i: usize = 0;
    while i < fields.len()
        invariant
            0 <= i <= fields@.len(),
            k@ == key@,
            forall|j: int| 0 <= j < i ==> fields@[j].0@ != key@,
        decreases fields@.len() - i,
    {
        if fields[i].0 == k {
            proof {
                assert(is_first_key(fields@, key@, i as int));
                let c: int = choose|c: int| is_first_key(fields@, key@, c);
                first_key_unique(fields@, key@, i as int, c);
            }
            return Some(i);
        }
        i = i + 1;
    }
    None
}

/// The text stored under `key` when it is a JSON string, else the sentinel.
pub fn str_or_none(entry: &Vec<(String, Json)>, key: &str) -> (r: String)
    ensures
        r@ == text_or_none(lookup(entry@, key@)),
{
    match lookup_index(entry, key) {
        Some(i) => make_string(Some(&entry[i].1)),
        None => make_string(None),
    }
}

/// The text of a value when it is a JSON string, else the sentinel.
pub fn make_string(o: Option<&Json>) -> (r: String)
    ensures
        r@ == text_or_none(
            match o {
                Some(v) => Some(*v),
                None => None,
            },
        ),
{
    proof {
        reveal_strlit("(none)");
    }
    match o {
        Some(Json::Str(s)) => s.clone(),
        _ => String::from_str("(none)"),
    }
}

fn clamp_to_i32(n: i128) -> (r: i32)
    ensures
        r == clamp_i32(n as int),
{
    if n < i32::MIN as i128 {
        i32::MIN
    } else if n > i32::MAX as i128 {
        i32::MAX
    } else {
        n as i32
    }
}

/// A numeric value as a signed 32-bit integer, truncated toward zero and
/// saturated at the bounds; `None` when absent or not a number.
pub fn get_i32(field: Option<&Json>) -> (r: Option<i32>)
    ensures
        r == i32_of(
            match field {
                Some(v) => Some(*v),
                None => None,
            },
        ),
{
    match field {
        Some(Json::Int(n)) => Some(clamp_to_i32(*n)),
        Some(Json::Float(f)) => Some(clamp_to_i32(f.whole as i128)),
        _ => None,
    }
}

/// A non-negative integer that fits in `u64`, cut to its low 32 bits;
/// `None` for anything else.
pub fn get_u32(field: Option<&Json>) -> (r: Option<u32>)
    ensures
        r == u32_of(
            match field {
                Some(v) => Some(*v),
                None => None,
            },
        ),
{
    match field {
        Some(Json::Int(n)) => {
            if 0 <= *n && *n <= u64::MAX as i128 {
                Some((*n % 0x1_0000_0000) as u32)
            } else {
                None
            }
        },
        _ => None,
    }
}

} // verus!
