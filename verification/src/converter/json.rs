//! Members of a JSON object as read by `serde_json`, kept as plain values.
use vstd::prelude::*;
use serde_json::Value;

verus! {

/// A JSON member value, as far as the link parsers read it.
#[derive(Debug, Clone)]
pub enum JsonField {
    /// A string.
    Str(String),
    /// A number, in `serde_json`'s textual form.
    Number(String),
    /// A boolean.
    Bool(bool),
    /// An array, each element given as its string content when it is a string.
    Array(Vec<Option<String>>),
    /// `null` or an object.
    Other,
}

/// Abstract value of a [`JsonField`].
pub enum JsonFieldView {
    Str(Seq<char>),
    Number(Seq<char>),
    Bool(bool),
    Array(Seq<Option<Seq<char>>>),
    Other,
}

/// Views of optional strings.
pub open spec fn opt_strs(v: Seq<Option<String>>) -> Seq<Option<Seq<char>>> {
    Seq::new(
        v.len(),
        |i: int|
            match v[i] {
                Some(s) => Some(s@),
                None => None,
            },
    )
}

impl View for JsonField {
    type V = JsonFieldView;

    open spec fn view(&self) -> JsonFieldView {
        match self {
            JsonField::Str(s) => JsonFieldView::Str(s@),
            JsonField::Number(n) => JsonFieldView::Number(n@),
            JsonField::Bool(b) => JsonFieldView::Bool(*b),
            JsonField::Array(a) => JsonFieldView::Array(opt_strs(a@)),
            JsonField::Other => JsonFieldView::Other,
        }
    }
}

/// Views of object members.
pub open spec fn members(v: Seq<(String, JsonField)>) -> Seq<(Seq<char>, JsonFieldView)> {
    Seq::new(v.len(), |i: int| (v[i].0@, v[i].1@))
}

/// What `serde_json::from_slice::<Value>` makes of `bytes`: the members
/// of the object it holds (none when the document is not an object), or
/// the error's message.
pub uninterp spec fn json_object_members(bytes: Seq<u8>) -> Result<
    Seq<(Seq<char>, JsonFieldView)>,
    Seq<char>,
>;

/// View of a parse outcome.
pub open spec fn members_result(r: Result<Vec<(String, JsonField)>, String>) -> Result<
    Seq<(Seq<char>, JsonFieldView)>,
    Seq<char>,
> {
    match r {
        Ok(v) => Ok(members(v@)),
        Err(e) => Err(e@),
    }
}

/// Calls `serde_json::from_slice` into a `serde_json::Value` and lists
/// the members of the object, converting each value variant by variant;
/// the result is named.
#[verifier::external_body]
pub(crate) fn parse_json_members(bytes: &[u8]) -> (r: Result<Vec<(String, JsonField)>, String>)
    ensures
        members_result(r) == json_object_members(bytes@),
{
    let v: Value = serde_json::from_slice(bytes).map_err(|e| e.to_string())?;
    let mut out = Vec::new();
    for (k, f) in v.as_object().into_iter().flatten() {
        out.push((k.clone(), match f {
            Value::String(s) => JsonField::Str(s.clone()),
            Value::Number(n) => JsonField::Number(n.to_string()),
            Value::Bool(b) => JsonField::Bool(*b),
            Value::Array(a) => JsonField::Array(a.iter().map(|x| x.as_str().map(String::from)).collect()),
            _ => JsonField::Other,
        }));
    }
    Ok(out)
}

/// Value of the first member named `key`.
pub open spec fn member(fields: Seq<(Seq<char>, JsonFieldView)>, key: Seq<char>) -> Option<JsonFieldView>
    decreases fields.len(),
{
    if fields.len() == 0 {
        None
    } else if fields[0].0 == key {
        Some(fields[0].1)
    } else {
        member(fields.drop_first(), key)
    }
}

/// Looks up the first member named `key`.
pub fn get_member(fields: &Vec<(String, JsonField)>, key: &str) -> (r: Option<JsonField>)
    ensures
        match r {
            Some(f) => member(members(fields@), key@) == Some(f@),
            None => member(members(fields@), key@) is None,
        },
{
    let k = String::from_str(key);
    let ghost ms = members(fields@);
    let mut i: usize = 0;
    assert(ms.skip(0) =~= ms);
    while i < fields.len()
        invariant
            i <= fields@.len(),
            k@ == key@,
            ms == members(fields@),
            member(ms, key@) == member(ms.skip(i as int), key@),
        decreases fields@.len() - i,
    {
        assert(ms.skip(i as int).drop_first() =~= ms.skip(i + 1));
        if fields[i].0 == k {
            return Some(clone_field(&fields[i].1));
        }
        i = i + 1;
    }
    None
}

/// A copy of a member value.
pub fn clone_field(f: &JsonField) -> (r: JsonField)
    ensures
        r@ == f@,
{
    match f {
        JsonField::Str(s) => JsonField::Str(s.clone()),
        JsonField::Number(n) => JsonField::Number(n.clone()),
        JsonField::Bool(b) => JsonField::Bool(*b),
        JsonField::Array(a) => {
            let mut out: Vec<Option<String>> = Vec::new();
            let mut i: usize = 0;
            while i < a.len()
                invariant
                    i <= a@.len(),
                    opt_strs(out@) == opt_strs(a@).take(i as int),
                decreases a@.len() - i,
            {
                let e = match &a[i] {
                    Some(s) => Some(s.clone()),
                    None => None,
                };
                let ghost before = opt_strs(out@);
                out.push(e);
                assert(opt_strs(out@) =~= before.push(opt_strs(a@)[i as int]));
                assert(opt_strs(a@).take(i + 1) =~= opt_strs(a@).take(i as int).push(
                    opt_strs(a@)[i as int],
                ));
                i = i + 1;
            }
            assert(opt_strs(a@).take(a@.len() as int) =~= opt_strs(a@));
            JsonField::Array(out)
        },
        JsonField::Other => JsonField::Other,
    }
}

} // verus!
