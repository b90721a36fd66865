use vstd::prelude::*;

use ahash::AHashMap;
use crate::text::{
    chars_equal, chars_of, contains_char, is_word, join_with_spaces, join_words,
    lemma_lines_after_two, lemma_words_are_words, lemma_words_of_joined, lines, split_lines, split_words,
    string_from_chars, words,
};

verus! {

/// A scalar DataRef value. A float travels as its IEEE-754 bit pattern
/// (`f32::to_bits`, `f64::to_bits`), so that the value passes through
/// unchanged.
#[derive(Clone, Copy, Debug, PartialEq, Eq, Structural)]
pub enum RefValue {
    Int(i32),
    Float(u32),
    Double(u64),
}

/// An array DataRef value; float elements travel as their bit patterns.
#[derive(Clone, Debug)]
pub enum RefValues {
    Ints(Vec<i32>),
    Floats(Vec<u32>),
    Bytes(Vec<u32>),
}

/// The mathematical content of a `RefValues`.
pub enum RefValuesView {
    Ints(Seq<i32>),
    Floats(Seq<u32>),
    Bytes(Seq<u32>),
}

impl View for RefValues {
    type V = RefValuesView;

    open spec fn view(&self) -> RefValuesView {
        match self {
            RefValues::Ints(v) => RefValuesView::Ints(v@),
            RefValues::Floats(v) => RefValuesView::Floats(v@),
            RefValues::Bytes(v) => RefValuesView::Bytes(v@),
        }
    }
}

/// One entry of X-Plane's `DataRefs.txt`.
#[derive(Clone, Debug)]
pub struct DataRefInfo {
    pub ref_name: String,
    pub ref_type: String,
    pub writable: bool,
    pub value_type: String,
    pub value_description: String,
}

impl DataRefInfo {
    /// A copy of this entry.
    pub fn duplicate(&self) -> (r: DataRefInfo)
        ensures
            r@ == self@,
    {
        DataRefInfo {
            ref_name: self.ref_name.clone(),
            ref_type: self.ref_type.clone(),
            writable: self.writable,
            value_type: self.value_type.clone(),
            value_description: self.value_description.clone(),
        }
    }
}

/// The mathematical content of a `DataRefInfo`.
pub struct DataRefInfoView {
    pub ref_name: Seq<char>,
    pub ref_type: Seq<char>,
    pub writable: bool,
    pub value_type: Seq<char>,
    pub value_description: Seq<char>,
}

impl View for DataRefInfo {
    type V = DataRefInfoView;

    open spec fn view(&self) -> DataRefInfoView {
        DataRefInfoView {
            ref_name: self.ref_name@,
            ref_type: self.ref_type@,
            writable: self.writable,
            value_type: self.value_type@,
            value_description: self.value_description@,
        }
    }
}

/// What one line of `DataRefs.txt` describes. Its blank-separated words are
/// the name, the type, the writable flag (writable exactly when it is "y"),
/// optionally the unit, and then the description, whose words are joined by
/// single spaces. A line with fewer than three words describes nothing.
pub open spec fn dataref_line_spec(line: Seq<char>) -> Option<DataRefInfoView> {
    let parts = words(line);
    if parts.len() < 3 {
        None
    } else if parts.len() == 3 {
        Some(
            DataRefInfoView {
                ref_name: parts[0],
                ref_type: parts[1],
                writable: parts[2] == seq!['y'],
                value_type: seq![],
                value_description: seq![],
            },
        )
    } else {
        Some(
            DataRefInfoView {
                ref_name: parts[0],
                ref_type: parts[1],
                writable: parts[2] == seq!['y'],
                value_type: parts[3],
                value_description: join_words(parts.subrange(4, parts.len() as int), seq![' ']),
            },
        )
    }
}

/// The entries that the lines `ls` describe, in order.
pub open spec fn dataref_lines_spec(ls: Seq<Seq<char>>) -> Seq<DataRefInfoView>
    decreases ls.len(),
{
    if ls.len() == 0 {
        seq![]
    } else {
        let prev = dataref_lines_spec(ls.drop_last());
        match dataref_line_spec(ls.last()) {
            Some(info) => prev.push(info),
            None => prev,
        }
    }
}

/// The entries of a `DataRefs.txt` text: its first two lines (the generator
/// line and a blank line) are skipped, every other line is read.
pub open spec fn datarefs_spec(contents: Seq<char>) -> Seq<DataRefInfoView> {
    let ls = lines(contents);
    if ls.len() <= 2 {
        seq![]
    } else {
        dataref_lines_spec(ls.subrange(2, ls.len() as int))
    }
}

fn parse_dataref_chars(line: &[char]) -> (r: Option<DataRefInfo>)
    ensures
        r is Some <==> dataref_line_spec(line@) is Some,
        r matches Some(info) ==> info@ == dataref_line_spec(line@)->0,
{
    let parts = split_words(line);
    let ghost pv = parts@.map_values(|w: Vec<char>| w@);
    assert(pv == words(line@));
    if parts.len() < 3 {
        return None;
    }
    let ref_name = string_from_chars(parts[0].as_slice());
    let ref_type = string_from_chars(parts[1].as_slice());
    let writable = parts[2].len() == 1 && parts[2][0] == 'y';
    assert(pv[0] == parts@[0]@ && pv[1] == parts@[1]@ && pv[2] == parts@[2]@);
    assert(writable == (pv[2] == seq!['y'])) by {
        if parts@[2]@.len() == 1 && parts@[2]@[0] == 'y' {
            assert(parts@[2]@ =~= seq!['y']);
        }
    }
    if parts.len() == 3 {
        let info = DataRefInfo {
            ref_name,
            ref_type,
            writable,
            value_type: String::new(),
            value_description: String::new(),
        };
        return Some(info);
    }
    let value_type = string_from_chars(parts[3].as_slice());
    assert(pv[3] == parts@[3]@);
    let desc = join_with_spaces(&parts, 4);
    let value_description = string_from_chars(desc.as_slice());
    Some(DataRefInfo { ref_name, ref_type, writable, value_type, value_description })
}

/// The name, type and unit read from a line are words, and the description
/// splits back into exactly the words that follow the unit.
pub proof fn lemma_dataref_line_fields(line: Seq<char>)
    requires
        dataref_line_spec(line) is Some,
    ensures
        ({
            let info = dataref_line_spec(line)->0;
            let parts = words(line);
            &&& is_word(info.ref_name)
            &&& is_word(info.ref_type)
            &&& parts.len() == 3 ==> info.value_type.len() == 0 && info.value_description.len() == 0
            &&& parts.len() > 3 ==> is_word(info.value_type) && words(info.value_description)
                == parts.subrange(4, parts.len() as int)
        }),
{
    let parts = words(line);
    lemma_words_are_words(line);
    assert(is_word(parts[0]) && is_word(parts[1]));
    if parts.len() > 3 {
        assert(is_word(parts[3]));
        let rest = parts.subrange(4, parts.len() as int);
        assert forall|i: int| 0 <= i < rest.len() implies is_word(#[trigger] rest[i]) by {
            assert(rest[i] == parts[i + 4]);
        }
        lemma_words_of_joined(rest);
    }
}

/// A line describes an entry exactly when it has at least three words; the
/// entry's name, type and flag are its first three words, the flag being set
/// exactly when the third word is "y" whatever follows it, and its unit is
/// the fourth word when there is one.
pub proof fn lemma_dataref_line_columns(line: Seq<char>)
    ensures
        dataref_line_spec(line) is Some <==> words(line).len() >= 3,
        words(line).len() >= 3 ==> ({
            let info = dataref_line_spec(line)->0;
            let w = words(line);
            &&& info.ref_name == w[0]
            &&& info.ref_type == w[1]
            &&& (info.writable <==> w[2] == seq!['y'])
            &&& w.len() > 3 ==> info.value_type == w[3]
            &&& w.len() == 3 ==> info.value_type.len() == 0
        }),
{
}

/// Two lines that start with the same three words give entries with the
/// same name, type and writable flag, however many words follow.
pub proof fn lemma_dataref_flag_ignores_rest(l1: Seq<char>, l2: Seq<char>)
    requires
        words(l1).len() >= 3,
        words(l2).len() >= 3,
        words(l1).take(3) == words(l2).take(3),
    ensures
        dataref_line_spec(l1)->0.ref_name == dataref_line_spec(l2)->0.ref_name,
        dataref_line_spec(l1)->0.ref_type == dataref_line_spec(l2)->0.ref_type,
        dataref_line_spec(l1)->0.writable == dataref_line_spec(l2)->0.writable,
{
    let w1 = words(l1);
    let w2 = words(l2);
    assert(w1[0] == w1.take(3)[0] && w1[1] == w1.take(3)[1] && w1[2] == w1.take(3)[2]);
    assert(w2[0] == w2.take(3)[0] && w2[1] == w2.take(3)[1] && w2[2] == w2.take(3)[2]);
}

/// Reading consecutive blocks of lines gives the entries of each block, one
/// after the other.
pub proof fn lemma_dataref_lines_concat(a: Seq<Seq<char>>, c: Seq<Seq<char>>)
    ensures
        dataref_lines_spec(a + c) == dataref_lines_spec(a) + dataref_lines_spec(c),
    decreases c.len(),
{
    if c.len() == 0 {
        assert(a + c =~= a);
        assert(dataref_lines_spec(a) + dataref_lines_spec(c) =~= dataref_lines_spec(a));
    } else {
        lemma_dataref_lines_concat(a, c.drop_last());
        assert((a + c).drop_last() =~= a + c.drop_last());
        assert((a + c).last() == c.last());
        match dataref_line_spec(c.last()) {
            Some(info) => {
                assert((dataref_lines_spec(a) + dataref_lines_spec(c.drop_last())).push(info)
                    =~= dataref_lines_spec(a) + dataref_lines_spec(c.drop_last()).push(info));
            },
            None => {},
        }
    }
}

/// A single line gives the entry that `parse_dataref_line` reads from it, or
/// nothing.
pub proof fn lemma_dataref_lines_single(l: Seq<char>)
    ensures
        dataref_lines_spec(seq![l]) == match dataref_line_spec(l) {
            Some(info) => seq![info],
            None => Seq::<DataRefInfoView>::empty(),
        },
{
    assert(seq![l].drop_last() =~= Seq::<Seq<char>>::empty());
    assert(seq![l].last() == l);
    assert(dataref_lines_spec(Seq::<Seq<char>>::empty()) =~= Seq::<DataRefInfoView>::empty());
    match dataref_line_spec(l) {
        Some(info) => {
            assert(Seq::<DataRefInfoView>::empty().push(info) =~= seq![info]);
        },
        None => {},
    }
}

/// Whatever the first two lines hold (a header line of any number of words
/// and a blank line, or anything else without a line break), the entries
/// read from the text are exactly those that the lines after them describe,
/// in order: the first two lines neither add an entry nor remove one.
pub proof fn lemma_datarefs_skip_two_lines(h1: Seq<char>, h2: Seq<char>, body: Seq<char>)
    requires
        !h1.contains('\n'),
        !h2.contains('\n'),
    ensures
        datarefs_spec(h1 + seq!['\n'] + h2 + seq!['\n'] + body) == dataref_lines_spec(lines(body)),
{
    lemma_lines_after_two(h1, h2, body);
    let t = h1 + seq!['\n'] + h2 + seq!['\n'] + body;
    let ls = lines(t);
    assert(ls.subrange(2, ls.len() as int) =~= lines(body));
}

/// Reads one line of `DataRefs.txt`; `None` when it has fewer than three words.
pub fn parse_dataref_line(line: &str) -> (r: Option<DataRefInfo>)
    ensures
        r is Some <==> dataref_line_spec(line@) is Some,
        r matches Some(info) ==> info@ == dataref_line_spec(line@)->0,
{
    let cs = chars_of(line);
    parse_dataref_chars(cs.as_slice())
}

/// Reads the whole text of `DataRefs.txt`: the first two lines are skipped
/// and each later line that describes an entry gives one, in order.
pub fn parse_datarefs(contents: &str) -> (r: Vec<DataRefInfo>)
    ensures
        r@.map_values(|i: DataRefInfo| i@) == datarefs_spec(contents@),
{
    let cs = chars_of(contents);
    let ls = split_lines(cs.as_slice());
    let ghost lv = ls@.map_values(|l: Vec<char>| l@);
    assert(lv == lines(contents@));
    let mut out: Vec<DataRefInfo> = Vec::new();
    let n = ls.len();
    if n <= 2 {
        return out;
    }
    let mut i: usize = 2;
    assert(lv.subrange(2, 2) =~= Seq::<Seq<char>>::empty());
    assert(out@.map_values(|i: DataRefInfo| i@) =~= Seq::<DataRefInfoView>::empty());
    while i < n
        invariant
            2 <= i <= n,
            n == ls@.len(),
            lv == ls@.map_values(|l: Vec<char>| l@),
            out@.map_values(|i: DataRefInfo| i@) == dataref_lines_spec(lv.subrange(2, i as int)),
        decreases n - i,
    {
        let ghost before = out@.map_values(|i: DataRefInfo| i@);
        let ghost seg = lv.subrange(2, i + 1);
        assert(seg.drop_last() =~= lv.subrange(2, i as int));
        assert(seg.last() == ls@[i as int]@);
        match parse_dataref_chars(ls[i].as_slice()) {
            Some(info) => {
                out.push(info);
                assert(out@.map_values(|i: DataRefInfo| i@) =~= before.push(info@));
            },
            None => {},
        }
        i = i + 1;
    }
    out
}

/// The element type that a scalar type name stands for: "float", "double"
/// and "int", each with a zero value.
pub open spec fn value_type_spec(s: Seq<char>) -> Option<RefValue> {
    if s == "float"@ {
        Some(RefValue::Float(0))
    } else if s == "double"@ {
        Some(RefValue::Double(0))
    } else if s == "int"@ {
        Some(RefValue::Int(0))
    } else {
        None
    }
}

/// The array type that an array type name stands for: "float[]", "int[]"
/// and "byte[]", each empty.
pub open spec fn values_type_spec(s: Seq<char>) -> Option<RefValuesView> {
    if s == "float[]"@ {
        Some(RefValuesView::Floats(seq![]))
    } else if s == "int[]"@ {
        Some(RefValuesView::Ints(seq![]))
    } else if s == "byte[]"@ {
        Some(RefValuesView::Bytes(seq![]))
    } else {
        None
    }
}

/// Maps a scalar type name to a value of that type.
pub fn map_string_to_ref_value_type(type_str: &str) -> (r: Option<RefValue>)
    ensures
        r == value_type_spec(type_str@),
{
    let s = chars_of(type_str);
    let f = chars_of("float");
    let d = chars_of("double");
    let i = chars_of("int");
    if chars_equal(s.as_slice(), f.as_slice()) {
        Some(RefValue::Float(0))
    } else if chars_equal(s.as_slice(), d.as_slice()) {
        Some(RefValue::Double(0))
    } else if chars_equal(s.as_slice(), i.as_slice()) {
        Some(RefValue::Int(0))
    } else {
        None
    }
}

/// Maps an array type name to an empty array of that type.
pub fn map_string_to_ref_values_type(type_str: &str) -> (r: Option<RefValues>)
    ensures
        r is Some <==> values_type_spec(type_str@) is Some,
        r matches Some(v) ==> v@ == values_type_spec(type_str@)->0,
{
    let s = chars_of(type_str);
    let f = chars_of("float[]");
    let i = chars_of("int[]");
    let b = chars_of("byte[]");
    if chars_equal(s.as_slice(), f.as_slice()) {
        let v: Vec<u32> = Vec::new();
        Some(RefValues::Floats(v))
    } else if chars_equal(s.as_slice(), i.as_slice()) {
        let v: Vec<i32> = Vec::new();
        Some(RefValues::Ints(v))
    } else if chars_equal(s.as_slice(), b.as_slice()) {
        let v: Vec<u32> = Vec::new();
        Some(RefValues::Bytes(v))
    } else {
        None
    }
}

#[verifier::external_type_specification]
#[verifier::external_body]
#[verifier::reject_recursive_types(K)]
#[verifier::reject_recursive_types(V)]
#[verifier::reject_recursive_types(S)]
pub struct ExAHashMap<K, V, S>(AHashMap<K, V, S>);

#[verifier::external_type_specification]
#[verifier::external_body]
pub struct ExRandomState(ahash::RandomState);

#[verifier::external_type_specification]
#[verifier::external_body]
pub struct ExRegexError(regex::Error);

/// What a map from DataRef names to type names holds.
pub uninterp spec fn type_map_entries(m: AHashMap<String, String>) -> Map<Seq<char>, Seq<char>>;

/// What `regex` makes of replacing, in `haystack`, every match of `pattern`
/// by `replacement`; `None` when `pattern` does not compile.
pub uninterp spec fn regex_substitution(pattern: Seq<char>, haystack: Seq<char>, replacement: Seq<char>) -> Option<Seq<char>>;

/// The map that files no name.
pub open spec fn no_types() -> Map<Seq<char>, Seq<char>> {
    Map::empty()
}

/// Calls `ahash::AHashMap::new`. Claimed: the new map holds nothing.
#[verifier::external_body]
fn type_map_new() -> (m: AHashMap<String, String>)
    ensures
        type_map_entries(m) == no_types(),
{
    AHashMap::new()
}

/// Calls `ahash::AHashMap::insert`. Claimed: afterwards the key maps to the
/// value and every other key is unchanged; the value the key had before, if
/// any, is returned.
#[verifier::external_body]
fn type_map_insert(m: &mut AHashMap<String, String>, k: String, v: String) -> (prev: Option<String>)
    ensures
        type_map_entries(*final(m)) == type_map_entries(*old(m)).insert(k@, v@),
        prev is Some <==> type_map_entries(*old(m)).contains_key(k@),
        prev matches Some(p) ==> p@ == type_map_entries(*old(m))[k@],
{
    m.insert(k, v)
}

/// Calls `ahash::AHashMap::get` and copies the value found. Claimed: a value
/// is found exactly when the map holds the key, and it is the one it holds.
#[verifier::external_body]
fn type_map_get(m: &AHashMap<String, String>, k: &str) -> (r: Option<String>)
    ensures
        r is Some <==> type_map_entries(*m).contains_key(k@),
        r matches Some(v) ==> v@ == type_map_entries(*m)[k@],
{
    m.get(k).cloned()
}

/// The type name under which `types` files `ref_name`, if any.
pub fn filed_type_of(types: &AHashMap<String, String>, ref_name: &str) -> (r: Option<String>)
    ensures
        r is Some <==> type_map_entries(*types).contains_key(ref_name@),
        r matches Some(t) ==> t@ == type_map_entries(*types)[ref_name@],
{
    type_map_get(types, ref_name)
}

/// The index of the first '[' in `s`, or `s.len()` when there is none.
pub open spec fn first_open_bracket(s: Seq<char>) -> int
    decreases s.len(),
{
    if s.len() == 0 {
        0
    } else if s[0] == '[' {
        0
    } else {
        1 + first_open_bracket(s.drop_first())
    }
}

/// The index of the last ']' in `s`, or -1 when there is none.
pub open spec fn last_close_bracket(s: Seq<char>) -> int
    decreases s.len(),
{
    if s.len() == 0 {
        -1
    } else if s.last() == ']' {
        s.len() - 1
    } else {
        last_close_bracket(s.drop_last())
    }
}

/// The text "[]".
pub open spec fn empty_brackets() -> Seq<char> {
    seq!['[', ']']
}

/// What replacing every match of `\[.*\]` by "[]" does to a text with no
/// line break: when some ']' follows the first '[', the span from the first
/// '[' to the last ']' becomes "[]"; otherwise nothing matches and the text
/// stays as it is.
pub open spec fn bracket_span_replaced(s: Seq<char>) -> Seq<char> {
    let i = first_open_bracket(s);
    let j = last_close_bracket(s);
    if i < j {
        s.take(i) + empty_brackets() + s.skip(j + 1)
    } else {
        s
    }
}

/// Compiles `pattern` with `regex::Regex::new` and, when it compiles,
/// replaces all its matches in `haystack` by `replacement` with
/// `Regex::replace_all`. Claimed: the result is `Ok` exactly when
/// `regex_substitution` names a text, and is that text. For the pattern
/// `\[.*\]`, which compiles, and the replacement "[]" (no `$`, so taken
/// literally), on a text without '\n' (which `.` does not match): the
/// leftmost match starts at the first '[' and, `.*` being greedy, ends at the
/// last ']', and no match can follow it; so the result is
/// `bracket_span_replaced`. Other patterns, and texts with line breaks, are
/// left to the name.
#[verifier::external_body]
fn regex_replace_all(pattern: &str, haystack: &str, replacement: &str) -> (r: Result<String, regex::Error>)
    ensures
        r is Ok <==> regex_substitution(pattern@, haystack@, replacement@) is Some,
        r matches Ok(s) ==> s@ == regex_substitution(pattern@, haystack@, replacement@)->0,
        pattern@ == array_size_pattern() ==> r is Ok,
        r matches Ok(s) ==> (pattern@ == array_size_pattern() && replacement@ == empty_brackets() && !haystack@.contains('\n') ==> s@ == bracket_span_replaced(haystack@)),
{
    match regex::Regex::new(pattern) {
        Ok(re) => Ok(re.replace_all(haystack, replacement).into_owned()),
        Err(e) => Err(e),
    }
}

/// The pattern whose matches in an array type name, such as "float[8]",
/// become "[]".
pub open spec fn array_size_pattern() -> Seq<char> {
    "\\[.*\\]"@
}

/// The type name under which a DataRef's type is filed: an array type has
/// its bracketed size replaced by "[]" (the span from the first '[' to the
/// last ']'), any other type is kept. A type that holds a line break is left
/// to what `regex` makes of it.
pub open spec fn filed_type(ref_type: Seq<char>) -> Seq<char> {
    if !ref_type.contains('[') {
        ref_type
    } else if !ref_type.contains('\n') {
        bracket_span_replaced(ref_type)
    } else {
        regex_substitution(array_size_pattern(), ref_type, empty_brackets())->0
    }
}

proof fn lemma_first_open_after(p: Seq<char>, q: Seq<char>)
    requires
        !p.contains('['),
        q.len() > 0,
        q[0] == '[',
    ensures
        first_open_bracket(p + q) == p.len(),
    decreases p.len(),
{
    if p.len() > 0 {
        assert((p + q)[0] == p[0]);
        assert((p + q).drop_first() =~= p.drop_first() + q);
        assert(!p.drop_first().contains('[')) by {
            if p.drop_first().contains('[') {
                let k = choose|k: int| 0 <= k < p.drop_first().len() && p.drop_first()[k] == '[';
                assert(p[k + 1] == '[');
            }
        }
        lemma_first_open_after(p.drop_first(), q);
    } else {
        assert(p + q =~= q);
    }
}

/// An array type `base[size]`, with no '[' in `base` and no line break
/// anywhere, is filed as `base[]`.
pub proof fn lemma_array_type_filed(base: Seq<char>, size: Seq<char>)
    requires
        !base.contains('['),
        !base.contains('\n'),
        !size.contains('\n'),
    ensures
        filed_type(base + seq!['['] + size + seq![']']) == base + empty_brackets(),
{
    let t = base + seq!['['] + size + seq![']'];
    assert(t[base.len() as int] == '[');
    assert(t.contains('['));
    assert(!t.contains('\n')) by {
        if t.contains('\n') {
            let k = choose|k: int| 0 <= k < t.len() && t[k] == '\n';
            if k < base.len() {
                assert(base[k] == '\n');
            } else if k > base.len() && k < t.len() - 1 {
                assert(size[k - base.len() - 1] == '\n');
            }
        }
    }
    let q = seq!['['] + size + seq![']'];
    assert(t =~= base + q);
    lemma_first_open_after(base, q);
    assert(last_close_bracket(t) == t.len() - 1);
    assert(t.take(base.len() as int) =~= base);
    assert(t.skip(t.len() as int) =~= Seq::<char>::empty());
    assert(bracket_span_replaced(t) =~= base + empty_brackets());
}

/// The map from names to the given type names, later entries winning.
pub open spec fn names_to_types(names: Seq<Seq<char>>, types: Seq<Seq<char>>) -> Map<
    Seq<char>,
    Seq<char>,
>
    decreases names.len(),
{
    if names.len() == 0 {
        Map::empty()
    } else {
        names_to_types(names.drop_last(), types.take(names.len() - 1)).insert(
            names.last(),
            types[names.len() - 1],
        )
    }
}

/// The type map of a list of entries: each name filed under the type of its
/// last entry.
pub open spec fn type_map_spec(infos: Seq<DataRefInfoView>) -> Map<Seq<char>, Seq<char>>
    decreases infos.len(),
{
    if infos.len() == 0 {
        Map::empty()
    } else {
        type_map_spec(infos.drop_last()).insert(
            infos.last().ref_name,
            filed_type(infos.last().ref_type),
        )
    }
}

/// The type name under which `ref_type` is filed.
pub fn filed_ref_type(ref_type: &str) -> (r: String)
    ensures
        r@ == filed_type(ref_type@),
{
    let cs = chars_of(ref_type);
    if contains_char(cs.as_slice(), '[') {
        proof {
            reveal_strlit("[]");
            assert("[]"@ =~= empty_brackets());
        }
        match regex_replace_all("\\[.*\\]", ref_type, "[]") {
            Ok(t) => t,
            Err(_) => {
                proof {
                    assert(false);
                }
                String::new()
            },
        }
    } else {
        ref_type.to_owned()
    }
}

/// Files each entry's name under the type name at the same position of
/// `types`; a later entry of the same name replaces an earlier one.
pub fn type_map_from_types(datarefs: &Vec<DataRefInfo>, types: &Vec<String>) -> (m: AHashMap<String, String>)
    requires
        datarefs@.len() == types@.len(),
    ensures
        type_map_entries(m) == names_to_types(
            datarefs@.map_values(|i: DataRefInfo| i@.ref_name),
            types@.map_values(|t: String| t@),
        ),
{
    let n = datarefs.len();
    let ghost names = datarefs@.map_values(|i: DataRefInfo| i@.ref_name);
    let ghost tys = types@.map_values(|t: String| t@);
    let mut m = type_map_new();
    assert(names.take(0) =~= Seq::<Seq<char>>::empty());
    for i in 0..n
        invariant
            n == datarefs@.len(),
            n == types@.len(),
            names == datarefs@.map_values(|i: DataRefInfo| i@.ref_name),
            tys == types@.map_values(|t: String| t@),
            type_map_entries(m) == names_to_types(names.take(i as int), tys.take(i as int)),
    {
        let k = datarefs[i].ref_name.clone();
        let v = types[i].clone();
        type_map_insert(&mut m, k, v);
        assert(names.take(i + 1).drop_last() =~= names.take(i as int));
        assert(tys.take(i + 1).take(i as int) =~= tys.take(i as int));
    }
    assert(names.take(n as int) =~= names);
    assert(tys.take(n as int) =~= tys);
    m
}

/// Builds the map from each DataRef's name to the name of its type, array
/// sizes shortened to "[]" (so "float[8]" is filed as "float[]"); the last
/// entry of a name wins.
pub fn compile_dataref_type_map(datarefs: Vec<DataRefInfo>) -> (m: AHashMap<String, String>)
    ensures
        type_map_entries(m) == type_map_spec(datarefs@.map_values(|i: DataRefInfo| i@)),
{
    let n = datarefs.len();
    let ghost infos = datarefs@.map_values(|i: DataRefInfo| i@);
    let mut types: Vec<String> = Vec::new();
    for i in 0..n
        invariant
            n == datarefs@.len(),
            infos == datarefs@.map_values(|i: DataRefInfo| i@),
            types@.len() == i,
            forall|j: int| 0 <= j < i ==> filed_type(#[trigger] infos[j].ref_type) == types@[j]@,
    {
        let t = filed_ref_type(datarefs[i].ref_type.as_str());
        types.push(t);
    }
    let m = type_map_from_types(&datarefs, &types);
    proof {
        lemma_type_map_from_filed(infos, types@.map_values(|t: String| t@));
        assert(datarefs@.map_values(|i: DataRefInfo| i@.ref_name) =~= infos.map_values(
            |v: DataRefInfoView| v.ref_name,
        ));
    }
    m
}

/// When every entry's type files as `types` says, the type map is the map of
/// names to those types.
proof fn lemma_type_map_from_filed(infos: Seq<DataRefInfoView>, types: Seq<Seq<char>>)
    requires
        infos.len() == types.len(),
        forall|j: int| 0 <= j < infos.len() ==> filed_type(#[trigger] infos[j].ref_type) == types[j],
    ensures
        type_map_spec(infos) == names_to_types(infos.map_values(|v: DataRefInfoView| v.ref_name), types),
    decreases infos.len(),
{
    if infos.len() > 0 {
        let k = infos.len() - 1;
        assert forall|j: int| 0 <= j < infos.drop_last().len() implies filed_type(
            #[trigger] infos.drop_last()[j].ref_type,
        ) == types.take(k)[j] by {
            assert(infos.drop_last()[j] == infos[j]);
        }
        lemma_type_map_from_filed(infos.drop_last(), types.take(k));
        assert(infos.map_values(|v: DataRefInfoView| v.ref_name).drop_last() =~= infos.drop_last().map_values(
            |v: DataRefInfoView| v.ref_name,
        ));
        assert(filed_type(infos[k].ref_type) == types[k]);
    }
}

/// In a type map, the name of an entry that no later entry shares is filed
/// under that entry's own filed type.
pub proof fn lemma_type_map_last_entry_wins(infos: Seq<DataRefInfoView>, i: int)
    requires
        0 <= i < infos.len(),
        forall|j: int| i < j < infos.len() ==> #[trigger] infos[j].ref_name != infos[i].ref_name,
    ensures
        type_map_spec(infos).contains_key(infos[i].ref_name),
        type_map_spec(infos)[infos[i].ref_name] == filed_type(infos[i].ref_type),
    decreases infos.len(),
{
    let k = infos.len() - 1;
    let prev = infos.drop_last();
    if i < k {
        assert forall|j: int| i < j < prev.len() implies #[trigger] prev[j].ref_name
            != prev[i].ref_name by {
            assert(prev[j] == infos[j]);
        }
        lemma_type_map_last_entry_wins(prev, i);
        assert(prev[i] == infos[i]);
    }
}

/// A name is in the type map exactly when some entry carries it.
pub proof fn lemma_type_map_names(infos: Seq<DataRefInfoView>, name: Seq<char>)
    ensures
        type_map_spec(infos).contains_key(name) <==> exists|i: int|
            0 <= i < infos.len() && #[trigger] infos[i].ref_name == name,
    decreases infos.len(),
{
    if infos.len() > 0 {
        let k = infos.len() - 1;
        let prev = infos.drop_last();
        lemma_type_map_names(prev, name);
        if exists|i: int| 0 <= i < prev.len() && #[trigger] prev[i].ref_name == name {
            let i = choose|i: int| 0 <= i < prev.len() && #[trigger] prev[i].ref_name == name;
            assert(infos[i] == prev[i]);
        }
        if exists|i: int| 0 <= i < infos.len() && #[trigger] infos[i].ref_name == name {
            let i = choose|i: int| 0 <= i < infos.len() && #[trigger] infos[i].ref_name == name;
            if i < k {
                assert(prev[i] == infos[i]);
            }
        }
    }
}

} // verus!
