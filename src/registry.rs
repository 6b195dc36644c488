use vstd::prelude::*;
use crate::text::chars_of;

verus! {

/// The kind of data a registry value holds.
#[derive(Debug, Clone, Copy, PartialEq, Eq, Structural)]
pub enum ValueType {
    Bytes,
    String,
    ExpandString,
    MultiString,
    U32,
    U64,
    Other(u32),
}

/// A typed registry value: its kind and its raw bytes.
#[derive(Debug, Clone)]
pub struct RegValue {
    pub ty: ValueType,
    pub data: Vec<u8>,
}

/// Labels of the value kinds, in the order that choices are offered;
/// the last one stands for any other kind.
pub open spec fn type_labels() -> Seq<Seq<char>> {
    seq![
        "REG_BINARY"@,
        "REG_SZ"@,
        "REG_EXPAND_SZ"@,
        "REG_MULTI_SZ"@,
        "REG_DWORD"@,
        "REG_QWORD"@,
        "REG_NONE"@,
    ]
}

/// The kind that the label at index `i` of `type_labels` names.
pub open spec fn type_at(i: int) -> ValueType {
    if i == 0 {
        ValueType::Bytes
    } else if i == 1 {
        ValueType::String
    } else if i == 2 {
        ValueType::ExpandString
    } else if i == 3 {
        ValueType::MultiString
    } else if i == 4 {
        ValueType::U32
    } else if i == 5 {
        ValueType::U64
    } else {
        ValueType::Other(0)
    }
}

/// Index in `type_labels` of a kind's label.
pub open spec fn label_index(t: ValueType) -> int {
    match t {
        ValueType::Bytes => 0,
        ValueType::String => 1,
        ValueType::ExpandString => 2,
        ValueType::MultiString => 3,
        ValueType::U32 => 4,
        ValueType::U64 => 5,
        ValueType::Other(_) => 6,
    }
}

/// The kind a label names: the first label equal to `s`, else any other kind.
pub open spec fn type_of_label(s: Seq<char>) -> ValueType {
    if exists|i: int| 0 <= i < 6 && type_labels()[i] == s {
        type_at(choose|i: int| 0 <= i < 6 && type_labels()[i] == s)
    } else {
        ValueType::Other(0)
    }
}

/// The names of the top-level nodes, in the order they are listed.
pub open spec fn root_names() -> Seq<Seq<char>> {
    seq![
        "HKEY_CLASSES_ROOT"@,
        "HKEY_CURRENT_USER"@,
        "HKEY_LOCAL_MACHINE"@,
        "HKEY_USERS"@,
        "HKEY_CURRENT_CONFIG"@,
    ]
}

pub open spec fn views(v: Seq<String>) -> Seq<Seq<char>> {
    v.map_values(|s: String| s@)
}

fn label_str(i: usize) -> (r: &'static str)
    requires
        i < 7,
    ensures
        r@ == type_labels()[i as int],
{
    if i == 0 {
        "REG_BINARY"
    } else if i == 1 {
        "REG_SZ"
    } else if i == 2 {
        "REG_EXPAND_SZ"
    } else if i == 3 {
        "REG_MULTI_SZ"
    } else if i == 4 {
        "REG_DWORD"
    } else if i == 5 {
        "REG_QWORD"
    } else {
        "REG_NONE"
    }
}

/// The labels of the first `n` kinds.
fn labels_up_to(n: usize) -> (r: Vec<String>)
    requires
        n <= 7,
    ensures
        views(r@) == type_labels().subrange(0, n as int),
{
    let mut r: Vec<String> = Vec::new();
    let mut i: usize = 0;
    while i < n
        invariant
            i <= n <= 7,
            views(r@) =~= type_labels().subrange(0, i as int),
        decreases n - i,
    {
        let ghost prev = r@;
        r.push(label_str(i).to_owned());
        assert(views(r@) =~= views(prev).push(type_labels()[i as int]));
        i = i + 1;
    }
    r
}

/// The labels of all kinds.
pub fn get_type_strings_vec() -> (r: Vec<String>)
    ensures
        views(r@) == type_labels(),
{
    let r = labels_up_to(7);
    assert(type_labels().subrange(0, 7) =~= type_labels());
    r
}

/// The labels offered when a new value's kind is chosen: all but the last.
pub fn get_type_choices_vec() -> (r: Vec<String>)
    ensures
        views(r@) == type_labels().subrange(0, 6),
{
    labels_up_to(6)
}

/// The names of the top-level nodes.
pub fn default_key_names() -> (r: Vec<String>)
    ensures
        views(r@) == root_names(),
{
    let mut r: Vec<String> = Vec::new();
    r.push("HKEY_CLASSES_ROOT".to_owned());
    r.push("HKEY_CURRENT_USER".to_owned());
    r.push("HKEY_LOCAL_MACHINE".to_owned());
    r.push("HKEY_USERS".to_owned());
    r.push("HKEY_CURRENT_CONFIG".to_owned());
    assert(views(r@) =~= root_names());
    r
}

/// The label of a kind.
pub fn type_to_str(t: ValueType) -> (r: &'static str)
    ensures
        r@ == type_labels()[label_index(t)],
{
    match t {
        ValueType::Bytes => label_str(0),
        ValueType::String => label_str(1),
        ValueType::ExpandString => label_str(2),
        ValueType::MultiString => label_str(3),
        ValueType::U32 => label_str(4),
        ValueType::U64 => label_str(5),
        ValueType::Other(_) => label_str(6),
    }
}

/// Whether two strings hold the same characters.
pub fn str_eq(a: &str, b: &str) -> (r: bool)
    ensures
        r == (a@ == b@),
{
    let ca = chars_of(a);
    let cb = chars_of(b);
    if ca.len() != cb.len() {
        return false;
    }
    let mut i: usize = 0;
    while i < ca.len()
        invariant
            ca@ == a@,
            cb@ == b@,
            ca.len() == cb.len(),
            i <= ca.len(),
            forall|j: int| 0 <= j < i ==> a@[j] == b@[j],
        decreases ca.len() - i,
    {
        if ca[i] != cb[i] {
            return false;
        }
        i = i + 1;
    }
    assert(a@ =~= b@);
    true
}

proof fn lemma_labels_distinct()
    ensures
        forall|i: int, j: int|
            0 <= i < 7 && 0 <= j < 7 && i != j ==> type_labels()[i] != type_labels()[j],
{
    reveal_strlit("REG_BINARY");
    reveal_strlit("REG_SZ");
    reveal_strlit("REG_EXPAND_SZ");
    reveal_strlit("REG_MULTI_SZ");
    reveal_strlit("REG_DWORD");
    reveal_strlit("REG_QWORD");
    reveal_strlit("REG_NONE");
    assert forall|i: int, j: int|
        0 <= i < 7 && 0 <= j < 7 && i != j implies type_labels()[i] != type_labels()[j] by {
        let a = type_labels()[i];
        let b = type_labels()[j];
        if a.len() == b.len() {
            assert(a[4] != b[4] || a[5] != b[5]);
        }
    }
}

/// The kind that a label names; a label of no kind gives `Other(0)`.
pub fn str_to_type(s: &str) -> (r: ValueType)
    ensures
        r == type_of_label(s@),
{
    let mut i: usize = 0;
    while i < 6
        invariant
            i <= 6,
            forall|j: int| 0 <= j < i ==> type_labels()[j] != s@,
        decreases 6 - i,
    {
        if str_eq(label_str(i), s) {
            proof {
                lemma_labels_distinct();
                let c = choose|k: int| 0 <= k < 6 && type_labels()[k] == s@;
                assert(c == i);
            }
            return match i {
                0 => ValueType::Bytes,
                1 => ValueType::String,
                2 => ValueType::ExpandString,
                3 => ValueType::MultiString,
                4 => ValueType::U32,
                _ => ValueType::U64,
            };
        }
        i = i + 1;
    }
    ValueType::Other(0)
}

/// A kind's label names that kind again; the label of any other kind names `Other(0)`.
pub proof fn lemma_label_round_trip(t: ValueType)
    ensures
        type_of_label(type_labels()[label_index(t)]) == match t {
            ValueType::Other(_) => ValueType::Other(0),
            _ => t,
        },
{
    lemma_labels_distinct();
    let i = label_index(t);
    if i < 6 {
        assert(type_labels()[i] == type_labels()[i]);
        let c = choose|k: int| 0 <= k < 6 && type_labels()[k] == type_labels()[i];
        assert(c == i);
    } else {
        assert forall|k: int| 0 <= k < 6 implies #[trigger] type_labels()[k] != type_labels()[6] by {}
    }
}

/// Whether `data` can be stored as a value of kind `ty`; every text is accepted.
pub fn validate_value_data(ty: ValueType, data: &str) -> (r: Result<(), ()>)
    ensures
        r is Ok,
{
    Ok(())
}

} // verus!
