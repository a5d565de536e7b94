use vstd::prelude::*;
use crate::json::{Json, field_value, find_field, is_first_field, lemma_first_field_unique};
use crate::parse::{parse_i32, spec_parse_i32};
use crate::text::{chars_of, string_of, str_equal};

verus! {

/// A position in an array named by a JSON pointer token: counted from
/// the front, counted back from the end, or the whole array (`-`).
#[derive(Clone, Copy, Debug, PartialEq, Eq, Structural)]
pub enum IndexRange {
    Index(usize),
    ReverseIndex(usize),
    All,
}

/// What a pointer token denotes as an index: `-` is the whole array, a
/// non-negative integer counts from the front, a negative one counts back
/// from the end; anything else denotes no index.
pub open spec fn spec_index_range(raw: Seq<char>) -> Option<IndexRange> {
    if raw == seq!['-'] {
        Some(IndexRange::All)
    } else {
        match spec_parse_i32(raw) {
            Some(n) => if n >= 0 {
                Some(IndexRange::Index(n as usize))
            } else {
                Some(IndexRange::ReverseIndex((-n) as usize))
            },
            None => None,
        }
    }
}

impl IndexRange {
    /// Reads an index from a pointer token.
    pub fn from_str(raw: &str) -> (r: Option<IndexRange>)
        requires
            spec_parse_i32(raw@) != Some(i32::MIN),
        ensures
            r == spec_index_range(raw@),
    {
        if raw.unicode_len() == 1 && raw.get_char(0) == '-' {
            assert(raw@ =~= seq!['-']);
            Some(IndexRange::All)
        } else {
            proof {
                if raw@ == seq!['-'] {
                    assert(raw@.len() == 1 && raw@[0] == '-');
                }
            }
            match parse_i32(raw) {
                Some(n) => if n >= 0 {
                    Some(IndexRange::Index(n as usize))
                } else {
                    Some(IndexRange::ReverseIndex((-n) as usize))
                },
                None => None,
            }
        }
    }
}

/// The position in a sequence of length `len` that an index names.
pub open spec fn index_position(len: int, index: IndexRange) -> int {
    match index {
        IndexRange::Index(i) => i as int,
        IndexRange::ReverseIndex(i) => len - i,
        IndexRange::All => -1,
    }
}

/// Whether an index names an element of a sequence of length `len`.
pub open spec fn index_in_bounds(len: int, index: IndexRange) -> bool {
    match index {
        IndexRange::Index(i) => i < len,
        IndexRange::ReverseIndex(i) => 1 <= i <= len,
        IndexRange::All => false,
    }
}

/// Access to one element of a container by an `IndexRange`.
pub trait AsIndexRange {
    type Output;

    /// Whether `index` names an element of this container.
    spec fn index_ok(&self, index: IndexRange) -> bool;

    /// The element that `index` names.
    spec fn element_at(&self, index: IndexRange) -> Self::Output;

    /// Whether `new` is this container with the element that `index` names
    /// replaced by `v`.
    spec fn replaced_at(&self, index: IndexRange, v: Self::Output, new: &Self) -> bool;

    fn as_index(&self, index: IndexRange) -> (r: &Self::Output)
        requires
            self.index_ok(index),
        ensures
            *r == self.element_at(index),
    ;

    fn as_index_mut(&mut self, index: IndexRange) -> (r: &mut Self::Output)
        requires
            old(self).index_ok(index),
        ensures
            *r == old(self).element_at(index),
            old(self).replaced_at(index, *final(r), &*final(self)),
    ;
}

impl<T> AsIndexRange for Vec<T> {
    type Output = T;

    open spec fn index_ok(&self, index: IndexRange) -> bool {
        index_in_bounds(self@.len() as int, index)
    }

    open spec fn element_at(&self, index: IndexRange) -> T {
        self@[index_position(self@.len() as int, index)]
    }

    open spec fn replaced_at(&self, index: IndexRange, v: T, new: &Self) -> bool {
        new@ == self@.update(index_position(self@.len() as int, index), v)
    }

    fn as_index(&self, index: IndexRange) -> (r: &T) {
        match index {
            IndexRange::Index(i) => &self[i],
            IndexRange::ReverseIndex(i) => {
                let n = self.len();
                &self[n - i]
            },
            IndexRange::All => {
                proof {
                    assert(false);
                }
                &self[0]
            },
        }
    }

    fn as_index_mut(&mut self, index: IndexRange) -> (r: &mut T) {
        let n = self.len();
        let pos: usize = match index {
            IndexRange::Index(i) => i,
            IndexRange::ReverseIndex(i) => n - i,
            IndexRange::All => {
                proof {
                    assert(false);
                }
                0
            },
        };
        &mut self[pos]
    }
}

/// One step of a JSON pointer: an array index or an object key.
pub enum PointerElement {
    IndexElement(IndexRange),
    KeyElement(String),
}

/// A JSON pointer: the unescaped reference tokens, in order.
#[derive(Debug, Clone)]
pub struct Pointer(pub Vec<String>);

/// The pieces of `s` between occurrences of `sep`, as `str::split` gives
/// them: there is always one more piece than there are separators.
pub open spec fn split_seq(s: Seq<char>, sep: char) -> Seq<Seq<char>>
    decreases s.len(),
{
    if s.len() == 0 {
        seq![Seq::<char>::empty()]
    } else {
        let prev = split_seq(s.drop_last(), sep);
        if s.last() == sep {
            prev.push(Seq::<char>::empty())
        } else {
            prev.update(prev.len() - 1, prev.last().push(s.last()))
        }
    }
}

/// `split_seq` never gives an empty list.
pub proof fn lemma_split_nonempty(s: Seq<char>, sep: char)
    ensures
        split_seq(s, sep).len() >= 1,
    decreases s.len(),
{
    if s.len() > 0 {
        lemma_split_nonempty(s.drop_last(), sep);
    }
}

/// `s` with every non-overlapping occurrence of the two characters `a b`,
/// found from left to right, replaced by the single character `rep`.
pub open spec fn replace_pair(s: Seq<char>, a: char, b: char, rep: char) -> Seq<char>
    decreases s.len(),
{
    if s.len() < 2 {
        s
    } else if s[0] == a && s[1] == b {
        seq![rep] + replace_pair(s.skip(2), a, b, rep)
    } else {
        seq![s[0]] + replace_pair(s.skip(1), a, b, rep)
    }
}

/// A reference token with its escapes undone: `~1` becomes `/`, then
/// `~0` becomes `~`.
pub open spec fn unescape_token(t: Seq<char>) -> Seq<char> {
    replace_pair(replace_pair(t, '~', '1', '/'), '~', '0', '~')
}

/// The reference tokens of a pointer's text: the pieces between `/`
/// after the first one, each unescaped.
pub open spec fn pointer_tokens(path: Seq<char>) -> Seq<Seq<char>> {
    split_seq(path, '/').skip(1).map_values(|t: Seq<char>| unescape_token(t))
}

/// The characters of each string, in order.
pub open spec fn strings_view(v: Seq<String>) -> Seq<Seq<char>> {
    v.map_values(|s: String| s@)
}

/// Splits a sequence of characters at each separator.
fn split_chars(cs: &Vec<char>, sep: char) -> (r: Vec<Vec<char>>)
    ensures
        r@.map_values(|v: Vec<char>| v@) == split_seq(cs@, sep),
{
    let mut done: Vec<Vec<char>> = Vec::new();
    let mut cur: Vec<char> = Vec::new();
    let mut i: usize = 0;
    while i < cs.len()
        invariant
            i <= cs.len(),
            done@.map_values(|v: Vec<char>| v@).push(cur@) == split_seq(cs@.subrange(0, i as int), sep),
        decreases cs.len() - i,
    {
        let c = cs[i];
        proof {
            let s1 = cs@.subrange(0, i + 1);
            assert(s1.drop_last() =~= cs@.subrange(0, i as int));
            assert(s1.last() == c);
        }
        if c == sep {
            let ghost before = done@.map_values(|v: Vec<char>| v@).push(cur@);
            done.push(cur);
            cur = Vec::new();
            assert(done@.map_values(|v: Vec<char>| v@).push(cur@) =~= before.push(Seq::<char>::empty()));
        } else {
            let ghost before = done@.map_values(|v: Vec<char>| v@).push(cur@);
            cur.push(c);
            assert(done@.map_values(|v: Vec<char>| v@).push(cur@) =~= before.update(
                before.len() - 1,
                before.last().push(c),
            ));
        }
        i = i + 1;
    }
    assert(cs@.subrange(0, cs@.len() as int) =~= cs@);
    done.push(cur);
    done
}

/// Replaces every occurrence of the pair `a b` by `rep`.
fn replace_chars(cs: &Vec<char>, a: char, b: char, rep: char) -> (r: Vec<char>)
    ensures
        r@ == replace_pair(cs@, a, b, rep),
{
    let mut out: Vec<char> = Vec::new();
    let mut i: usize = 0;
    assert(cs@.skip(0) =~= cs@);
    assert(out@ + replace_pair(cs@.skip(0), a, b, rep) =~= replace_pair(cs@, a, b, rep));
    while i < cs.len()
        invariant
            i <= cs.len(),
            out@ + replace_pair(cs@.skip(i as int), a, b, rep) == replace_pair(cs@, a, b, rep),
        decreases cs.len() - i,
    {
        let ghost rest = cs@.skip(i as int);
        if i + 1 < cs.len() && cs[i] == a && cs[i + 1] == b {
            assert(rest.skip(2) =~= cs@.skip(i + 2));
            out.push(rep);
            assert(out@ + replace_pair(cs@.skip(i + 2), a, b, rep) =~= replace_pair(cs@, a, b, rep));
            i = i + 2;
        } else {
            assert(rest.skip(1) =~= cs@.skip(i + 1));
            out.push(cs[i]);
            if i + 1 < cs.len() {
                assert(out@ + replace_pair(cs@.skip(i + 1), a, b, rep) =~= replace_pair(cs@, a, b, rep));
            } else {
                assert(rest.len() == 1);
                assert(cs@.skip(i + 1).len() == 0);
                assert(out@ + replace_pair(cs@.skip(i + 1), a, b, rep) =~= replace_pair(cs@, a, b, rep));
            }
            i = i + 1;
        }
    }
    assert(cs@.skip(i as int).len() == 0);
    assert(out@ + replace_pair(cs@.skip(i as int), a, b, rep) =~= out@);
    out
}

impl Pointer {
    /// Reads a JSON pointer from its text: the text is split at every
    /// `/`, the piece before the first `/` is dropped, and in each other
    /// piece `~1` becomes `/` and then `~0` becomes `~`.
    pub fn from_str(path: &str) -> (r: Pointer)
        ensures
            strings_view(r.0@) == pointer_tokens(path@),
    {
        let cs = chars_of(path);
        let pieces = split_chars(&cs, '/');
        proof {
            lemma_split_nonempty(path@, '/');
        }
        let mut tokens: Vec<String> = Vec::new();
        let mut i: usize = 1;
        while i < pieces.len()
            invariant
                1 <= i <= pieces.len(),
                pieces@.map_values(|v: Vec<char>| v@) == split_seq(path@, '/'),
                strings_view(tokens@) == split_seq(path@, '/').subrange(1, i as int).map_values(
                    |t: Seq<char>| unescape_token(t),
                ),
            decreases pieces.len() - i,
        {
            assert(pieces@.map_values(|v: Vec<char>| v@)[i as int] == pieces@[i as int]@);
            let once = replace_chars(&pieces[i], '~', '1', '/');
            let twice = replace_chars(&once, '~', '0', '~');
            let s = string_of(&twice);
            let ghost before = strings_view(tokens@);
            tokens.push(s);
            assert(strings_view(tokens@) =~= before.push(s@));
            assert(s@ == unescape_token(split_seq(path@, '/')[i as int]));
            assert(split_seq(path@, '/').subrange(1, i + 1).map_values(|t: Seq<char>| unescape_token(t))
                =~= split_seq(path@, '/').subrange(1, i as int).map_values(|t: Seq<char>| unescape_token(t)).push(
                unescape_token(split_seq(path@, '/')[i as int])));
            assert(strings_view(tokens@) =~= split_seq(path@, '/').subrange(1, i + 1).map_values(
                |t: Seq<char>| unescape_token(t),
            ));
            i = i + 1;
        }
        assert(split_seq(path@, '/').subrange(1, i as int) =~= split_seq(path@, '/').skip(1));
        Pointer(tokens)
    }

    /// The pointer made of the tokens of `self` followed by those of `rhs`.
    pub fn concat(self, rhs: Pointer) -> (r: Pointer)
        ensures
            r.0@ == self.0@ + rhs.0@,
    {
        let mut vec = self.0;
        let mut vec_r = rhs.0;
        vec.append(&mut vec_r);
        Pointer(vec)
    }

    /// A copy of this pointer.
    pub fn duplicate(&self) -> (r: Pointer)
        ensures
            r.0@ == self.0@,
    {
        let v = self.0.clone();
        assert(v@ =~= self.0@);
        Pointer(v)
    }
}

/// Concatenation is stated by the `add` below over the tokens; pointers are
/// not compared as whole values.
impl vstd::std_specs::ops::AddSpecImpl for Pointer {
    open spec fn obeys_add_spec() -> bool {
        false
    }

    open spec fn add_req(self, rhs: Pointer) -> bool {
        true
    }

    open spec fn add_spec(self, rhs: Pointer) -> Pointer {
        choose|p: Pointer| p.0@ == self.0@ + rhs.0@
    }
}

impl core::ops::Add for Pointer {
    type Output = Pointer;

    /// The pointer made of the tokens of `self` followed by those of `rhs`.
    fn add(self, rhs: Pointer) -> (r: Pointer)
        ensures
            r.0@ == self.0@ + rhs.0@,
    {
        self.concat(rhs)
    }
}

/// One operation of a JSON patch document.
pub enum Operation {
    Add(Pointer, Json),
    Remove(Pointer),
    Copy(Pointer, Pointer),
    Move(Pointer, Pointer),
    Test(Pointer, Json),
    Replace(Pointer, Json),
}

/// The ways a patch can fail. No operation of this library fails, so the
/// one variant (Verus needs at least one) is never produced.
#[derive(Debug)]
pub enum PatchError {
    Unreachable,
}

/// The value of the field `key` of a JSON object.
pub open spec fn json_field(json: Json, key: Seq<char>) -> Option<Json> {
    match json {
        Json::Object(fields) => field_value(fields@, key),
        _ => None,
    }
}

/// The text of the field `key` of a JSON object, when that field is a string.
pub open spec fn json_str_field(json: Json, key: Seq<char>) -> Option<Seq<char>> {
    match json_field(json, key) {
        Some(Json::Str(s)) => Some(s@),
        _ => None,
    }
}

/// Whether a JSON value is a patch operation that can be read: an object
/// whose `op` is one of the six operation names, with a string `path`,
/// a `value` for `add`, `test` and `replace`, and a string `from` for
/// `copy` and `move`.
pub open spec fn patch_op_readable(json: Json) -> bool {
    match json_str_field(json, "op"@) {
        Some(op) => {
            &&& json_str_field(json, "path"@) is Some
            &&& if op == "add"@ || op == "test"@ || op == "replace"@ {
                json_field(json, "value"@) is Some
            } else if op == "copy"@ || op == "move"@ {
                json_str_field(json, "from"@) is Some
            } else {
                op == "remove"@
            }
        },
        None => false,
    }
}

/// Whether a pointer holds the tokens of the given pointer text.
pub open spec fn pointer_from(p: Pointer, text: Option<Seq<char>>) -> bool {
    text matches Some(t) && strings_view(p.0@) == pointer_tokens(t)
}

/// Whether `op` is the operation that a readable JSON value describes.
pub open spec fn operation_of(json: Json, op: Operation) -> bool {
    let name = json_str_field(json, "op"@);
    let path = json_str_field(json, "path"@);
    let from = json_str_field(json, "from"@);
    let value = json_field(json, "value"@);
    match op {
        Operation::Add(p, v) => name == Some("add"@) && pointer_from(p, path) && value == Some(v),
        Operation::Remove(p) => name == Some("remove"@) && pointer_from(p, path),
        Operation::Copy(p, f) => name == Some("copy"@) && pointer_from(p, path) && pointer_from(f, from),
        Operation::Move(p, f) => name == Some("move"@) && pointer_from(p, path) && pointer_from(f, from),
        Operation::Test(p, v) => name == Some("test"@) && pointer_from(p, path) && value == Some(v),
        Operation::Replace(p, v) => name == Some("replace"@) && pointer_from(p, path) && value == Some(v),
    }
}

/// The pointer of an operation's target.
pub open spec fn operation_path(op: Operation) -> Pointer {
    match op {
        Operation::Add(p, _) => p,
        Operation::Remove(p) => p,
        Operation::Copy(p, _) => p,
        Operation::Move(p, _) => p,
        Operation::Test(p, _) => p,
        Operation::Replace(p, _) => p,
    }
}

/// Reads the string field `key` of an object's fields as a pointer.
fn pointer_field(fields: &Vec<(String, Json)>, key: &str) -> (r: Option<Pointer>)
    ensures
        match r {
            Some(p) => match field_value(fields@, key@) {
                Some(Json::Str(s)) => strings_view(p.0@) == pointer_tokens(s@),
                _ => false,
            },
            None => !(field_value(fields@, key@) matches Some(Json::Str(_))),
        },
{
    match find_field(fields, key) {
        Some(i) => {
            proof {
                let k = choose|k: int| is_first_field(fields@, key@, k);
                lemma_first_field_unique(fields@, key@, i as int, k);
            }
            match &fields[i].1 {
                Json::Str(s) => Some(Pointer::from_str(s.as_str())),
                _ => None,
            }
        },
        None => None,
    }
}

/// How many times `c` occurs in `s`.
pub open spec fn count_char(s: Seq<char>, c: char) -> nat
    decreases s.len(),
{
    if s.len() == 0 {
        0
    } else {
        count_char(s.drop_last(), c) + if s.last() == c {
            1nat
        } else {
            0nat
        }
    }
}

/// There is one more piece than there are separators.
pub proof fn lemma_split_len(s: Seq<char>, sep: char)
    ensures
        split_seq(s, sep).len() == count_char(s, sep) + 1,
    decreases s.len(),
{
    if s.len() > 0 {
        lemma_split_len(s.drop_last(), sep);
    }
}

/// Text that starts with the separator has an empty first piece.
pub proof fn lemma_split_leading_sep(b: Seq<char>, sep: char)
    requires
        b.len() > 0,
        b[0] == sep,
    ensures
        split_seq(b, sep).len() >= 2,
        split_seq(b, sep)[0] == Seq::<char>::empty(),
    decreases b.len(),
{
    if b.len() == 1 {
        assert(b.drop_last() =~= Seq::<char>::empty());
    } else {
        lemma_split_leading_sep(b.drop_last(), sep);
    }
}

/// Splitting joined text joins the last piece of the first part with the
/// first piece of the second.
pub proof fn lemma_split_concat(a: Seq<char>, b: Seq<char>, sep: char)
    ensures
        split_seq(a + b, sep) == split_seq(a, sep).drop_last() + seq![
            split_seq(a, sep).last() + split_seq(b, sep)[0],
        ] + split_seq(b, sep).skip(1),
    decreases b.len(),
{
    lemma_split_nonempty(a, sep);
    lemma_split_nonempty(b, sep);
    let sa = split_seq(a, sep);
    if b.len() == 0 {
        assert(a + b =~= a);
        assert(sa.drop_last() + seq![sa.last() + Seq::<char>::empty()] =~= sa);
        assert(split_seq(b, sep).skip(1) =~= Seq::<Seq<char>>::empty());
        assert(sa.drop_last() + seq![sa.last() + split_seq(b, sep)[0]] + split_seq(b, sep).skip(1) =~= sa);
    } else {
        let b1 = b.drop_last();
        let c = b.last();
        lemma_split_concat(a, b1, sep);
        lemma_split_nonempty(b1, sep);
        assert((a + b).drop_last() =~= a + b1);
        assert((a + b).last() == c);
        let s1 = split_seq(b1, sep);
        let p = sa.drop_last();
        let l = sa.last();
        let prev = p + seq![l + s1[0]] + s1.skip(1);
        assert(split_seq(a + b1, sep) == prev);
        if c == sep {
            let sb = s1.push(Seq::<char>::empty());
            assert(split_seq(b, sep) == sb);
            assert(sb[0] == s1[0]);
            assert(sb.skip(1) =~= s1.skip(1).push(Seq::<char>::empty()));
            assert(prev.push(Seq::<char>::empty()) =~= p + seq![l + sb[0]] + sb.skip(1));
        } else {
            let sb = s1.update(s1.len() - 1, s1.last().push(c));
            assert(split_seq(b, sep) == sb);
            if s1.len() == 1 {
                assert(sb[0] == s1[0].push(c));
                assert(sb.skip(1) =~= Seq::<Seq<char>>::empty());
                assert(s1.skip(1) =~= Seq::<Seq<char>>::empty());
                assert(prev.last() == l + s1[0]);
                assert((l + s1[0]).push(c) =~= l + s1[0].push(c));
                assert(prev.update(prev.len() - 1, prev.last().push(c)) =~= p + seq![l + sb[0]] + sb.skip(1));
            } else {
                assert(sb[0] == s1[0]);
                assert(sb.skip(1) =~= s1.skip(1).update(s1.len() - 2, s1.last().push(c)));
                assert(prev.last() == s1.last());
                assert(prev.update(prev.len() - 1, prev.last().push(c)) =~= p + seq![l + sb[0]] + sb.skip(1));
            }
        }
    }
}

/// A pointer has one token for each `/` in its text.
pub proof fn law_pointer_token_count(path: Seq<char>)
    ensures
        pointer_tokens(path).len() == count_char(path, '/'),
{
    lemma_split_len(path, '/');
}

/// Reading the text of two pointers written one after the other gives the
/// tokens of the first followed by those of the second, as adding the two
/// read pointers does.
pub proof fn law_pointer_text_concat(a: Seq<char>, b: Seq<char>)
    requires
        b.len() > 0,
        b[0] == '/',
    ensures
        pointer_tokens(a + b) == pointer_tokens(a) + pointer_tokens(b),
{
    lemma_split_concat(a, b, '/');
    lemma_split_leading_sep(b, '/');
    lemma_split_nonempty(a, '/');
    let sa = split_seq(a, '/');
    let sb = split_seq(b, '/');
    assert(sa.last() + sb[0] =~= sa.last());
    assert(sa.drop_last() + seq![sa.last()] =~= sa);
    assert(split_seq(a + b, '/') =~= sa + sb.skip(1));
    assert((sa + sb.skip(1)).skip(1) =~= sa.skip(1) + sb.skip(1).skip(0));
    assert(sb.skip(1).skip(0) =~= sb.skip(1));
    assert((sa.skip(1) + sb.skip(1)).map_values(|t: Seq<char>| unescape_token(t)) =~= sa.skip(1).map_values(
        |t: Seq<char>| unescape_token(t),
    ) + sb.skip(1).map_values(|t: Seq<char>| unescape_token(t)));
}

/// Replacing works piece by piece: text cut after a character that cannot
/// start the pair is replaced in each part on its own. So no occurrence is
/// skipped, however many there are.
pub proof fn law_replace_pair_concat(x: Seq<char>, y: Seq<char>, a: char, b: char, rep: char)
    requires
        x.len() == 0 || x.last() != a,
    ensures
        replace_pair(x + y, a, b, rep) == replace_pair(x, a, b, rep) + replace_pair(y, a, b, rep),
    decreases x.len(),
{
    let s = x + y;
    if x.len() == 0 {
        assert(s =~= y);
        assert(replace_pair(x, a, b, rep) =~= Seq::<char>::empty());
        assert(replace_pair(x, a, b, rep) + replace_pair(y, a, b, rep) =~= replace_pair(y, a, b, rep));
    } else if x.len() == 1 {
        assert(x[0] != a);
        if s.len() < 2 {
            assert(y.len() == 0);
            assert(s =~= x);
            assert(replace_pair(y, a, b, rep) =~= Seq::<char>::empty());
            assert(replace_pair(x, a, b, rep) + replace_pair(y, a, b, rep) =~= replace_pair(x, a, b, rep));
        } else {
            assert(s[0] == x[0]);
            assert(s.skip(1) =~= y);
            assert(replace_pair(x, a, b, rep) == x);
            assert(seq![s[0]] =~= x);
        }
    } else {
        assert(s[0] == x[0] && s[1] == x[1]);
        if x[0] == a && x[1] == b {
            let x2 = x.skip(2);
            assert(x2.len() == 0 || x2.last() == x.last());
            law_replace_pair_concat(x2, y, a, b, rep);
            assert(s.skip(2) =~= x2 + y);
            assert(seq![rep] + (replace_pair(x2, a, b, rep) + replace_pair(y, a, b, rep)) =~= (seq![rep] + replace_pair(x2, a, b, rep)) + replace_pair(y, a, b, rep));
        } else {
            let x1 = x.skip(1);
            assert(x1.last() == x.last());
            law_replace_pair_concat(x1, y, a, b, rep);
            assert(s.skip(1) =~= x1 + y);
            assert(seq![x[0]] + (replace_pair(x1, a, b, rep) + replace_pair(y, a, b, rep)) =~= (seq![x[0]] + replace_pair(x1, a, b, rep)) + replace_pair(y, a, b, rep));
        }
    }
}

/// Where the replacement is neither character of the pair, the result
/// holds the pair nowhere: every occurrence was replaced.
pub proof fn law_replace_pair_leaves_none(s: Seq<char>, a: char, b: char, rep: char)
    requires
        rep != a,
        rep != b,
    ensures
        forall|i: int| 0 <= i < replace_pair(s, a, b, rep).len() - 1 ==> !(#[trigger] replace_pair(s, a, b, rep)[i] == a && replace_pair(s, a, b, rep)[i + 1] == b),
    decreases s.len(),
{
    let r = replace_pair(s, a, b, rep);
    if s.len() >= 2 {
        if s[0] == a && s[1] == b {
            let t = s.skip(2);
            law_replace_pair_leaves_none(t, a, b, rep);
            let rt = replace_pair(t, a, b, rep);
            assert forall|i: int| 0 <= i < r.len() - 1 implies !(#[trigger] r[i] == a && r[i + 1] == b) by {
                if i > 0 {
                    assert(r[i] == rt[i - 1] && r[i + 1] == rt[i]);
                }
            }
        } else {
            let t = s.skip(1);
            law_replace_pair_leaves_none(t, a, b, rep);
            let rt = replace_pair(t, a, b, rep);
            if t.len() >= 2 && t[0] == a && t[1] == b {
                assert(rt[0] == rep);
            } else if t.len() >= 2 {
                assert(rt[0] == t[0]);
            } else {
                assert(rt == t);
            }
            assert(t[0] == s[1]);
            assert forall|i: int| 0 <= i < r.len() - 1 implies !(#[trigger] r[i] == a && r[i + 1] == b) by {
                if i > 0 {
                    assert(r[i] == rt[i - 1] && r[i + 1] == rt[i]);
                } else {
                    assert(r[0] == s[0] && r[1] == rt[0]);
                }
            }
        }
    }
}

/// The path of an operation read from JSON is the pointer written in its
/// `path` field.
pub proof fn law_operation_path_is_written_path(json: Json, op: Operation)
    requires
        operation_of(json, op),
    ensures
        json_str_field(json, "path"@) matches Some(t) && strings_view(operation_path(op).0@) == pointer_tokens(t),
{
}

impl Operation {
    /// Reads one operation of a JSON patch document.
    pub fn new_from_json(json: Json) -> (r: Result<Operation, PatchError>)
        requires
            patch_op_readable(json),
        ensures
            r matches Ok(op) && operation_of(json, op),
    {
        let ghost input = json;
        let mut fields = match json {
            Json::Object(fields) => fields,
            _ => {
                proof {
                    assert(false);
                }
                Vec::new()
            },
        };
        let path = pointer_field(&fields, "path");
        let from = pointer_field(&fields, "from");
        let value_index = find_field(&fields, "value");
        let oi = match find_field(&fields, "op") {
            Some(oi) => oi,
            None => {
                proof {
                    assert(false);
                }
                0
            },
        };
        proof {
            let k = choose|k: int| is_first_field(fields@, "op"@, k);
            lemma_first_field_unique(fields@, "op"@, oi as int, k);
        }
        let (is_add, is_test, is_replace, is_remove, is_copy, is_move) = match &fields[oi].1 {
            Json::Str(s) => (
                str_equal(s.as_str(), "add"),
                str_equal(s.as_str(), "test"),
                str_equal(s.as_str(), "replace"),
                str_equal(s.as_str(), "remove"),
                str_equal(s.as_str(), "copy"),
                str_equal(s.as_str(), "move"),
            ),
            _ => {
                proof {
                    assert(false);
                }
                (false, false, false, false, false, false)
            },
        };
        let p = match path {
            Some(p) => p,
            None => {
                proof {
                    assert(false);
                }
                Pointer(Vec::new())
            },
        };
        if is_add || is_test || is_replace {
            let vi = match value_index {
                Some(vi) => vi,
                None => {
                    proof {
                        assert(false);
                    }
                    0
                },
            };
            proof {
                let k = choose|k: int| is_first_field(fields@, "value"@, k);
                lemma_first_field_unique(fields@, "value"@, vi as int, k);
            }
            let (_, v) = fields.remove(vi);
            if is_add {
                Ok(Operation::Add(p, v))
            } else if is_test {
                Ok(Operation::Test(p, v))
            } else {
                Ok(Operation::Replace(p, v))
            }
        } else if is_remove {
            Ok(Operation::Remove(p))
        } else {
            let f = match from {
                Some(f) => f,
                None => {
                    proof {
                        assert(false);
                    }
                    Pointer(Vec::new())
                },
            };
            if is_copy {
                Ok(Operation::Copy(p, f))
            } else {
                Ok(Operation::Move(p, f))
            }
        }
    }

    /// The pointer of this operation's target.
    pub fn get_path(&self) -> (r: Pointer)
        ensures
            r.0@ == operation_path(*self).0@,
    {
        match self {
            Operation::Add(path, _) => path.duplicate(),
            Operation::Remove(path) => path.duplicate(),
            Operation::Copy(path, _) => path.duplicate(),
            Operation::Move(path, _) => path.duplicate(),
            Operation::Test(path, _) => path.duplicate(),
            Operation::Replace(path, _) => path.duplicate(),
        }
    }
}


} // verus!
