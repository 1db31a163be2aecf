//! JSON values, as the plugins read and write them.

use vstd::prelude::*;

use crate::text::chars::{opt, same_text};
use crate::text::table::{lemma_pair_map, pair_map};

verus! {

/// What a JSON text stands for. A number is told apart by whether it is a
/// whole number from zero up, a negative whole number, or any other number.
pub enum JsonVal {
    Null,
    Bool(bool),
    Uint(u64),
    Int(i64),
    Real(serde_json::Number),
    Str(Seq<char>),
    Arr(Seq<JsonVal>),
    Obj(Map<Seq<char>, JsonVal>),
}

impl JsonVal {
    /// The value of the member `key`; `Null` where there is none.
    pub open spec fn member(self, key: Seq<char>) -> JsonVal {
        match self {
            JsonVal::Obj(m) => if m.contains_key(key) {
                m[key]
            } else {
                JsonVal::Null
            },
            _ => JsonVal::Null,
        }
    }

    /// The text, of a string.
    pub open spec fn text(self) -> Option<Seq<char>> {
        match self {
            JsonVal::Str(s) => Some(s),
            _ => None,
        }
    }

    /// The text, of a string; that of `default` of anything else.
    pub open spec fn text_or(self, default: Seq<char>) -> Seq<char> {
        match self {
            JsonVal::Str(s) => s,
            _ => default,
        }
    }

    /// The text, of a string that is not empty.
    pub open spec fn filled(self) -> Option<Seq<char>> {
        match self {
            JsonVal::Str(s) => if s.len() > 0 {
                Some(s)
            } else {
                None
            },
            _ => None,
        }
    }

    /// The number, of a whole number from zero up; zero of anything else.
    pub open spec fn uint_or_zero(self) -> u64 {
        match self {
            JsonVal::Uint(n) => n,
            _ => 0,
        }
    }

    /// The number, of a whole number in the range of `i64`.
    pub open spec fn signed(self) -> Option<i64> {
        match self {
            JsonVal::Uint(n) => if n <= i64::MAX {
                Some(n as i64)
            } else {
                None
            },
            JsonVal::Int(n) => Some(n),
            _ => None,
        }
    }

    /// The items, of an array; none of anything else.
    pub open spec fn items(self) -> Seq<JsonVal> {
        match self {
            JsonVal::Arr(s) => s,
            _ => seq![],
        }
    }

    /// The first item, of an array that has one; `Null` of anything else.
    pub open spec fn first(self) -> JsonVal {
        if self.items().len() > 0 {
            self.items()[0]
        } else {
            JsonVal::Null
        }
    }
}

/// A JSON value.
#[derive(Debug)]
pub enum Json {
    Null,
    Bool(bool),
    Uint(u64),
    Int(i64),
    Real(serde_json::Number),
    Str(String),
    Arr(Vec<Json>),
    Obj(Vec<(String, Json)>),
}

impl View for Json {
    type V = JsonVal;

    open spec fn view(&self) -> JsonVal {
        self.val()
    }
}

impl Json {
    /// What the value stands for.
    pub open spec fn val(&self) -> JsonVal
        decreases self,
    {
        match self {
            Json::Null => JsonVal::Null,
            Json::Bool(b) => JsonVal::Bool(*b),
            Json::Uint(n) => JsonVal::Uint(*n),
            Json::Int(n) => JsonVal::Int(*n),
            Json::Real(n) => JsonVal::Real(*n),
            Json::Str(s) => JsonVal::Str(s@),
            Json::Arr(v) => JsonVal::Arr(
                Seq::new(
                    v@.len(),
                    |i: int|
                        if 0 <= i < v@.len() {
                            v@[i].val()
                        } else {
                            JsonVal::Null
                        },
                ),
            ),
            Json::Obj(v) => JsonVal::Obj(pair_map(member_keys(v@), Json::members(v@))),
        }
    }

    /// What the values of a list of members stand for.
    pub open spec fn members(v: Seq<(String, Json)>) -> Seq<JsonVal>
        decreases v,
    {
        if v.len() == 0 {
            seq![]
        } else {
            let last = v[v.len() - 1];
            Json::members(v.subrange(0, v.len() - 1)).push(last.1.val())
        }
    }
}

/// What the items of an array stand for.
pub open spec fn item_vals(v: Seq<Json>) -> Seq<JsonVal> {
    Seq::new(v.len(), |i: int| v[i]@)
}

/// The keys of an object's members.
pub open spec fn member_keys(v: Seq<(String, Json)>) -> Seq<Seq<char>> {
    Seq::new(v.len(), |i: int| v[i].0@)
}

/// What the values of an object's members stand for.
pub open spec fn member_vals(v: Seq<(String, Json)>) -> Seq<JsonVal> {
    Seq::new(v.len(), |i: int| v[i].1@)
}

/// An array stands for the list of what its items stand for.
pub proof fn lemma_arr(v: Vec<Json>)
    ensures
        Json::Arr(v)@ == JsonVal::Arr(item_vals(v@)),
{
    assert(Json::Arr(v)@->Arr_0 =~= item_vals(v@));
}

/// An object stands for the map from its keys to what its members stand for.
pub proof fn lemma_obj(v: Vec<(String, Json)>)
    ensures
        Json::Obj(v)@ == JsonVal::Obj(pair_map(member_keys(v@), member_vals(v@))),
{
    lemma_members(v@);
}

/// The members' values stand, one by one, for what each value stands for.
proof fn lemma_members(v: Seq<(String, Json)>)
    ensures
        Json::members(v) == member_vals(v),
    decreases v.len(),
{
    if v.len() > 0 {
        lemma_members(v.subrange(0, v.len() - 1));
    }
    assert(Json::members(v) =~= member_vals(v));
}

impl Json {
    /// The value of the member `key`; `Null` where there is none.
    pub fn get(&self, key: &str) -> (r: &Json)
        ensures
            r@ == self@.member(key@),
    {
        if let Json::Obj(v) = self {
            let ghost ks = member_keys(v@);
            let ghost vs = member_vals(v@);
            proof {
                lemma_obj(*v);
                lemma_pair_map(ks, vs, key@);
            }
            let mut n: usize = v.len();
            while n > 0
                invariant
                    n <= v@.len(),
                    ks == member_keys(v@),
                    vs == member_vals(v@),
                    self@ == JsonVal::Obj(pair_map(ks, vs)),
                    pair_map(ks, vs).contains_key(key@) <==> ks.contains(key@),
                    forall|i: int|
                        #![trigger ks[i]]
                        0 <= i < ks.len() && ks[i] == key@ && (forall|j: int|
                            i < j < ks.len() ==> ks[j] != key@) ==> pair_map(ks, vs)[key@] == vs[i],
                    forall|j: int| n <= j < ks.len() ==> ks[j] != key@,
                decreases n,
            {
                if same_text(v[n - 1].0.as_str(), key) {
                    assert(ks[n - 1] == key@);
                    return &v[n - 1].1;
                }
                n -= 1;
            }
        }
        &Json::Null
    }

    /// The text, of a string.
    pub fn as_str(&self) -> (r: Option<&String>)
        ensures
            match r {
                Some(s) => self@.text() == Some(s@),
                None => self@.text() is None,
            },
    {
        match self {
            Json::Str(s) => Some(s),
            _ => None,
        }
    }

    /// The text, of a string, as a string of its own.
    pub fn text(&self) -> (r: Option<String>)
        ensures
            opt(r) == self@.text(),
    {
        match self {
            Json::Str(s) => Some(s.clone()),
            _ => None,
        }
    }

    /// The text, of a string; `default` of anything else.
    pub fn text_or(&self, default: &str) -> (r: String)
        ensures
            r@ == self@.text_or(default@),
    {
        match self {
            Json::Str(s) => s.clone(),
            _ => default.to_owned(),
        }
    }

    /// The text, of a string that is not empty.
    pub fn filled(&self) -> (r: Option<String>)
        ensures
            opt(r) == self@.filled(),
    {
        match self {
            Json::Str(s) => if s.as_str().is_empty() {
                None
            } else {
                Some(s.clone())
            },
            _ => None,
        }
    }

    /// The number, of a whole number from zero up; zero of anything else.
    pub fn uint_or_zero(&self) -> (r: u64)
        ensures
            r == self@.uint_or_zero(),
    {
        match self {
            Json::Uint(n) => *n,
            _ => 0,
        }
    }

    /// The number, of a whole number in the range of `i64`.
    pub fn as_i64(&self) -> (r: Option<i64>)
        ensures
            r == self@.signed(),
    {
        match self {
            Json::Uint(n) => if *n <= 0x7fff_ffff_ffff_ffff {
                Some(*n as i64)
            } else {
                None
            },
            Json::Int(n) => Some(*n),
            _ => None,
        }
    }

    /// The items, of an array.
    pub fn as_array(&self) -> (r: Option<&Vec<Json>>)
        ensures
            match r {
                Some(v) => self@ == JsonVal::Arr(item_vals(v@)),
                None => !(self@ is Arr),
            },
    {
        match self {
            Json::Arr(v) => {
                proof {
                    lemma_arr(*v);
                }
                Some(v)
            },
            _ => None,
        }
    }

    /// The first item, of an array that has one; `Null` of anything else.
    pub fn first(&self) -> (r: &Json)
        ensures
            r@ == self@.first(),
    {
        match self.as_array() {
            Some(v) => if v.len() > 0 {
                &v[0]
            } else {
                &Json::Null
            },
            None => &Json::Null,
        }
    }
}

/// `serde_json`'s value type; `tree_of` names what a value of it stands for.
#[verifier::external_type_specification]
#[verifier::external_body]
pub struct ExValue(serde_json::Value);

/// `serde_json`'s number type, carried through as it is.
#[verifier::external_type_specification]
#[verifier::external_body]
pub struct ExNumber(serde_json::Number);

/// What a `serde_json::Value` holds.
pub uninterp spec fn tree_of(v: serde_json::Value) -> JsonVal;

/// What parsing a text as JSON gives: the value, or the message of the error.
pub uninterp spec fn parsed(text: Seq<char>) -> Result<JsonVal, Seq<char>>;

/// The compact JSON text of a value.
pub uninterp spec fn rendered(v: JsonVal) -> Seq<char>;

/// The outermost layer of a `serde_json::Value`.
pub enum Layer {
    Null,
    Bool(bool),
    Uint(u64),
    Int(i64),
    Real(serde_json::Number),
    Str(String),
    Arr(Vec<serde_json::Value>),
    Obj(Vec<(String, serde_json::Value)>),
}

/// What the values in a list hold.
pub open spec fn trees(v: Seq<serde_json::Value>) -> Seq<JsonVal> {
    Seq::new(v.len(), |i: int| tree_of(v[i]))
}

/// The keys of a list of members.
pub open spec fn layer_keys(v: Seq<(String, serde_json::Value)>) -> Seq<Seq<char>> {
    Seq::new(v.len(), |i: int| v[i].0@)
}

/// What the values in a list of members hold.
pub open spec fn layer_trees(v: Seq<(String, serde_json::Value)>) -> Seq<JsonVal> {
    Seq::new(v.len(), |i: int| tree_of(v[i].1))
}

impl Layer {
    /// What a value with this outermost layer holds.
    pub open spec fn tree(self) -> JsonVal {
        match self {
            Layer::Null => JsonVal::Null,
            Layer::Bool(b) => JsonVal::Bool(b),
            Layer::Uint(n) => JsonVal::Uint(n),
            Layer::Int(n) => JsonVal::Int(n),
            Layer::Real(n) => JsonVal::Real(n),
            Layer::Str(s) => JsonVal::Str(s@),
            Layer::Arr(v) => JsonVal::Arr(trees(v@)),
            Layer::Obj(v) => JsonVal::Obj(pair_map(layer_keys(v@), layer_trees(v@))),
        }
    }
}

/// Takes a `serde_json::Value` apart, one variant for one. A number goes by
/// `Number::as_u64` and `Number::as_i64`. The members of an object come out of
/// its `Map`, which holds no key twice.
#[verifier::external_body]
fn open_value(v: serde_json::Value) -> (r: Layer)
    ensures
        r.tree() == tree_of(v),
        r matches Layer::Obj(m) ==> layer_keys(m@).no_duplicates(),
{
    match v {
        serde_json::Value::Null => Layer::Null,
        serde_json::Value::Bool(b) => Layer::Bool(b),
        serde_json::Value::Number(n) => match (n.as_u64(), n.as_i64()) {
            (Some(u), _) => Layer::Uint(u),
            (None, Some(i)) => Layer::Int(i),
            (None, None) => Layer::Real(n),
        },
        serde_json::Value::String(s) => Layer::Str(s),
        serde_json::Value::Array(a) => Layer::Arr(a),
        serde_json::Value::Object(m) => Layer::Obj(m.into_iter().collect()),
    }
}

/// Calls `serde_json::from_str` for a `Value`. What comes back depends on the
/// text alone and is named `parsed`; of an error its message is kept.
#[verifier::external_body]
pub(crate) fn read_value(text: &str) -> (r: Result<serde_json::Value, String>)
    ensures
        match r {
            Ok(v) => parsed(text@) == Ok::<JsonVal, Seq<char>>(tree_of(v)),
            Err(m) => parsed(text@) == Err::<JsonVal, Seq<char>>(m@),
        },
{
    serde_json::from_str::<serde_json::Value>(text).map_err(|e| e.to_string())
}

/// Makes `serde_json::Value::Object` of an empty `serde_json::Map`.
#[verifier::external_body]
pub(crate) fn new_object() -> (r: serde_json::Value)
    ensures
        tree_of(r) == JsonVal::Obj(Map::empty()),
{
    serde_json::Value::Object(serde_json::Map::new())
}

/// Makes a `serde_json::Value::String`.
#[verifier::external_body]
pub(crate) fn new_text(s: &str) -> (r: serde_json::Value)
    ensures
        tree_of(r) == JsonVal::Str(s@),
{
    serde_json::Value::String(s.to_string())
}

/// Makes a `serde_json::Value::Number` of a whole number.
#[verifier::external_body]
pub(crate) fn new_uint(n: u64) -> (r: serde_json::Value)
    ensures
        tree_of(r) == JsonVal::Uint(n),
{
    serde_json::Value::from(n)
}

/// Calls `Map::insert` on the map that `Value::as_object_mut` gives. In an
/// object the member is added or takes the place of the one with the same key;
/// any other value stays as it is.
#[verifier::external_body]
pub(crate) fn set_member(v: &mut serde_json::Value, key: &str, member: serde_json::Value)
    ensures
        tree_of(*final(v)) == match tree_of(*old(v)) {
            JsonVal::Obj(m) => JsonVal::Obj(m.insert(key@, tree_of(member))),
            other => other,
        },
{
    if let Some(map) = v.as_object_mut() {
        map.insert(key.to_string(), member);
    }
}

/// Calls `Value::to_string`. The text depends on what the value holds alone
/// and is named `rendered`.
#[verifier::external_body]
pub(crate) fn write_value(v: &serde_json::Value) -> (r: String)
    ensures
        r@ == rendered(tree_of(*v)),
{
    v.to_string()
}

/// A value that holds what `v` holds.
fn from_value(v: serde_json::Value) -> (r: Json)
    ensures
        r@ == tree_of(v),
    decreases tree_of(v),
{
    let ghost whole = tree_of(v);
    match open_value(v) {
        Layer::Null => Json::Null,
        Layer::Bool(b) => Json::Bool(b),
        Layer::Uint(n) => Json::Uint(n),
        Layer::Int(n) => Json::Int(n),
        Layer::Real(n) => Json::Real(n),
        Layer::Str(s) => Json::Str(s),
        Layer::Arr(items) => {
            let mut out: Vec<Json> = Vec::new();
            let ghost all = items@;
            for x in it: items
                invariant
                    it.seq() == all,
                    out@.len() == it.index(),
                    whole == tree_of(v),
                    whole == JsonVal::Arr(trees(all)),
                    forall|k: int| 0 <= k < it.index() ==> (#[trigger] out@[k])@ == tree_of(all[k]),
            {
                proof {
                    let s = whole->Arr_0;
                    assert(s[it.index() as int] == tree_of(x));
                    assert(decreases_to!(whole => s));
                    assert(decreases_to!(s => s[it.index() as int]));
                }
                out.push(from_value(x));
            }
            proof {
                lemma_arr(out);
                assert(item_vals(out@) =~= trees(all));
            }
            Json::Arr(out)
        },
        Layer::Obj(items) => {
            let mut out: Vec<(String, Json)> = Vec::new();
            let ghost all = items@;
            for x in it: items
                invariant
                    it.seq() == all,
                    out@.len() == it.index(),
                    whole == tree_of(v),
                    whole == JsonVal::Obj(pair_map(layer_keys(all), layer_trees(all))),
                    layer_keys(all).no_duplicates(),
                    forall|k: int|
                        #![trigger out@[k]]
                        0 <= k < it.index() ==> out@[k].0@ == all[k].0@ && out@[k].1@ == tree_of(
                            all[k].1,
                        ),
            {
                proof {
                    let i = it.index() as int;
                    let m = whole->Obj_0;
                    let ks = layer_keys(all);
                    lemma_pair_map(ks, layer_trees(all), x.0@);
                    lemma_pair_map_finite(ks, layer_trees(all));
                    assert(ks[i] == x.0@);
                    assert(ks.contains(x.0@));
                    assert(m[x.0@] == layer_trees(all)[i]);
                    assert(m[x.0@] == tree_of(x.1));
                    assert(decreases_to!(whole => m));
                    assert(decreases_to!(m => m[x.0@]));
                }
                out.push((x.0, from_value(x.1)));
            }
            proof {
                lemma_obj(out);
                assert(member_keys(out@) =~= layer_keys(all));
                assert(member_vals(out@) =~= layer_trees(all));
            }
            Json::Obj(out)
        },
    }
}

/// The map of a list of pairs is finite.
proof fn lemma_pair_map_finite<V>(keys: Seq<Seq<char>>, vals: Seq<V>)
    ensures
        pair_map(keys, vals).dom().finite(),
    decreases keys.len(),
{
    if keys.len() > 0 && vals.len() == keys.len() {
        lemma_pair_map_finite(keys.drop_last(), vals.drop_last());
    }
}

impl Json {
    /// Reads `text` as JSON.
    pub fn parse(text: &str) -> (r: Result<Json, String>)
        ensures
            match r {
                Ok(j) => parsed(text@) == Ok::<JsonVal, Seq<char>>(j@),
                Err(m) => parsed(text@) == Err::<JsonVal, Seq<char>>(m@),
            },
    {
        match read_value(text) {
            Ok(v) => Ok(from_value(v)),
            Err(m) => Err(m),
        }
    }
}

/// The escape of a character in a JSON string, or the character itself.
pub open spec fn quoted_char(c: char) -> Seq<char> {
    if c == '"' {
        seq!['\\', '"']
    } else if c == '\\' {
        seq!['\\', '\\']
    } else if c as u32 == 0x8 {
        seq!['\\', 'b']
    } else if c as u32 == 0x9 {
        seq!['\\', 't']
    } else if c as u32 == 0xa {
        seq!['\\', 'n']
    } else if c as u32 == 0xc {
        seq!['\\', 'f']
    } else if c as u32 == 0xd {
        seq!['\\', 'r']
    } else if (c as u32) < 0x10 {
        seq!['\\', 'u', '0', '0', '0', hex_small(c as int)]
    } else if (c as u32) < 0x20 {
        seq!['\\', 'u', '0', '0', '1', hex_small(c as int - 16)]
    } else {
        seq![c]
    }
}

/// A hexadecimal digit, written small.
pub open spec fn hex_small(d: int) -> char {
    if d < 10 {
        (d + 48) as u8 as char
    } else {
        (d + 87) as u8 as char
    }
}

/// The characters of `s` as they stand between the quotes of a JSON string.
pub open spec fn quoted_chars(s: Seq<char>) -> Seq<char>
    decreases s.len(),
{
    if s.len() == 0 {
        seq![]
    } else {
        quoted_chars(s.drop_last()) + quoted_char(s.last())
    }
}

/// `s` as a JSON string.
pub open spec fn quoted(s: Seq<char>) -> Seq<char> {
    seq!['"'] + quoted_chars(s) + seq!['"']
}

/// Calls `serde_json::to_string` on a text. The result is the text between
/// double quotes, with a backslash before `"` and `\`, the short escapes of
/// backspace, tab, line feed, form feed and carriage return, `\u00` and two
/// small hexadecimal digits for the other control characters below a space,
/// and every other character as it is. Writing a text does not fail.
#[verifier::external_body]
pub(crate) fn json_string(s: &str) -> (r: String)
    ensures
        r@ == quoted(s@),
{
    serde_json::to_string(s).unwrap_or_default()
}

/// Each kind of value is read as what it is, and as nothing else.
pub proof fn values_are_read_as_what_they_are(v: JsonVal, key: Seq<char>, default: Seq<char>)
    ensures
        v.text() matches Some(s) ==> v == JsonVal::Str(s) && v.text_or(default) == s,
        v.text() is None <==> !(v is Str),
        v.text() is None ==> v.text_or(default) == default,
        v.filled() is Some <==> (v matches JsonVal::Str(s) && s.len() > 0),
        v.filled() is Some ==> v.filled() == v.text(),
        v matches JsonVal::Uint(n) ==> v.uint_or_zero() == n,
        !(v is Uint) ==> v.uint_or_zero() == 0,
        v matches JsonVal::Uint(n) ==> (n <= 0x7fff_ffff_ffff_ffff ==> (
        v.signed() matches Some(i) && i == n)),
        v matches JsonVal::Uint(n) ==> (n > 0x7fff_ffff_ffff_ffff ==> v.signed() is None),
        v matches JsonVal::Int(n) ==> v.signed() == Some(n),
        !(v is Uint) && !(v is Int) ==> v.signed() is None,
        v matches JsonVal::Arr(s) ==> v.items() == s && (s.len() > 0 ==> v.first() == s[0]),
        !(v is Arr) ==> v.items().len() == 0 && v.first() == JsonVal::Null,
        v.items().len() == 0 ==> v.first() == JsonVal::Null,
        v matches JsonVal::Obj(m) ==> (m.contains_key(key) ==> v.member(key) == m[key]),
        v matches JsonVal::Obj(m) ==> (!m.contains_key(key) ==> v.member(key) == JsonVal::Null),
        !(v is Obj) ==> v.member(key) == JsonVal::Null,
{
}

/// A text is written character by character.
pub proof fn texts_are_written_in_order(a: Seq<char>, b: Seq<char>)
    ensures
        quoted_chars(a + b) == quoted_chars(a) + quoted_chars(b),
        quoted(a) == seq!['"'] + quoted_chars(a) + seq!['"'],
    decreases b.len(),
{
    if b.len() == 0 {
        assert(a + b =~= a);
        assert(quoted_chars(b) =~= seq![]);
        assert(quoted_chars(a) + quoted_chars(b) =~= quoted_chars(a));
    } else {
        assert((a + b).drop_last() =~= a + b.drop_last());
        texts_are_written_in_order(a, b.drop_last());
        assert(quoted_chars(a + b) =~= quoted_chars(a) + quoted_chars(b));
    }
}

/// The two quoting characters stand behind a backslash, the five controls with
/// a letter of their own are written with it and the others by their number,
/// and every other character stands for itself.
pub proof fn characters_are_written(c: char)
    ensures
        c == '"' || c == '\\' ==> quoted_chars(seq![c]) == seq!['\\', c],
        c == '\u{8}' ==> quoted_chars(seq![c]) == seq!['\\', 'b'],
        c == '\t' ==> quoted_chars(seq![c]) == seq!['\\', 't'],
        c == '\n' ==> quoted_chars(seq![c]) == seq!['\\', 'n'],
        c == '\u{c}' ==> quoted_chars(seq![c]) == seq!['\\', 'f'],
        c == '\r' ==> quoted_chars(seq![c]) == seq!['\\', 'r'],
        c >= ' ' && c != '"' && c != '\\' ==> quoted_chars(seq![c]) == seq![c],
        ' ' > c && c != '\u{8}' && c != '\t' && c != '\n' && c != '\u{c}' && c != '\r' ==> {
            let q = quoted_chars(seq![c]);
            &&& q.len() == 6
            &&& q[0] == '\\' && q[1] == 'u' && q[2] == '0' && q[3] == '0'
            &&& q[4] == if '\u{10}' > c {
                '0'
            } else {
                '1'
            }
            &&& c as int % 16 < 10 ==> q[5] as int == '0' as int + c as int % 16
            &&& c as int % 16 >= 10 ==> q[5] as int == 'a' as int + c as int % 16 - 10
        },
{
    let s = seq![c];
    assert(s.drop_last() =~= seq![]);
    assert(quoted_chars(s.drop_last()) =~= seq![]);
    assert(quoted_chars(s) =~= quoted_char(c));
}

/// Each value stands for what it is: an array for what its items stand for, in
/// their order, and an object for what its members stand for under their keys,
/// of which the last of a name counts.
pub proof fn values_stand_for_what_they_are(
    s: String,
    items: Vec<Json>,
    members: Vec<(String, Json)>,
    i: int,
)
    ensures
        Json::Null@ == JsonVal::Null,
        Json::Str(s)@ == JsonVal::Str(s@),
        Json::Arr(items)@ matches JsonVal::Arr(v) && v.len() == items@.len() && (0 <= i
            < items@.len() ==> v[i] == items@[i]@),
        Json::Obj(members)@ matches JsonVal::Obj(m) && {
            &&& 0 <= i < members@.len() ==> m.contains_key(members@[i].0@)
            &&& 0 <= i < members@.len() && (forall|j: int|
                i < j < members@.len() ==> (#[trigger] members@[j]).0@ != members@[i].0@)
                ==> m[members@[i].0@] == members@[i].1@
        },
{
    lemma_arr(items);
    lemma_obj(members);
    let keys = member_keys(members@);
    let vals = member_vals(members@);
    if 0 <= i < members@.len() {
        lemma_pair_map(keys, vals, keys[i]);
        assert(keys[i] == members@[i].0@);
        assert(keys.contains(keys[i]));
        if forall|j: int|
            i < j < members@.len() ==> (#[trigger] members@[j]).0@ != members@[i].0@ {
            assert forall|j: int| i < j < keys.len() implies keys[j] != keys[i] by {
                assert(members@[j].0@ != members@[i].0@);
            }
        }
    }
}

} // verus!
