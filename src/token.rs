//! The action token: an action verb and its fields joined by a reserved
//! delimiter, carried through the platform's opaque component identifier.
use vstd::prelude::*;

verus! {

/// The reserved delimiter between the action verb and each field.
pub const DELIM: char = ':';

/// The platform's ceiling on the length of a component identifier, in characters.
pub const MAX_TOKEN_LEN: usize = 100;

/// Why a token could not be built or read.
#[derive(Clone, Copy, Debug, PartialEq, Eq, Structural)]
pub enum TokenError {
    /// The action or a field holds the delimiter.
    InvalidField,
    /// The token holds no delimiter: it names an initial state, not an action.
    NoAction,
    /// The token is longer than the platform accepts.
    TooLong,
    /// The token splits into fewer fields than the caller expects.
    MissingField,
}

pub open spec fn has_char(s: Seq<char>, c: char) -> bool {
    exists|i: int| 0 <= i < s.len() && s[i] == c
}

pub open spec fn has_delim(s: Seq<char>) -> bool {
    has_char(s, DELIM)
}

/// Index of the first `c` in `s`, or -1 when there is none.
pub open spec fn index_of(s: Seq<char>, c: char) -> int
    decreases s.len(),
{
    if s.len() == 0 {
        -1
    } else if s[0] == c {
        0
    } else {
        let r = index_of(s.drop_first(), c);
        if r < 0 { -1 } else { r + 1 }
    }
}

/// `":" + f0 + ":" + f1 + ...`
pub open spec fn tail_join(fields: Seq<Seq<char>>) -> Seq<char>
    decreases fields.len(),
{
    if fields.len() == 0 {
        Seq::empty()
    } else {
        seq![DELIM] + fields[0] + tail_join(fields.drop_first())
    }
}

/// The token text for an action and its fields.
pub open spec fn join(action: Seq<char>, fields: Seq<Seq<char>>) -> Seq<char> {
    action + tail_join(fields)
}

/// Splits `s` at its first `k - 1` occurrences of `c`, from the left; the
/// last piece keeps the remainder, separators included.
pub open spec fn split_by(s: Seq<char>, c: char, k: nat) -> Seq<Seq<char>>
    decreases k,
{
    if k <= 1 || index_of(s, c) < 0 {
        seq![s]
    } else {
        let i = index_of(s, c);
        seq![s.subrange(0, i)] + split_by(s.subrange(i + 1, s.len() as int), c, (k - 1) as nat)
    }
}

/// Splits `s` at its first `k - 1` delimiters, from the left.
pub open spec fn split_left(s: Seq<char>, k: nat) -> Seq<Seq<char>> {
    split_by(s, DELIM, k)
}

pub open spec fn string_views(v: Seq<String>) -> Seq<Seq<char>> {
    v.map_values(|s: String| s@)
}

/// What encoding an action with its fields gives.
pub open spec fn encode_spec(action: Seq<char>, fields: Seq<Seq<char>>) -> Result<
    Seq<char>,
    TokenError,
> {
    if has_delim(action) || exists|i: int| 0 <= i < fields.len() && has_delim(#[trigger] fields[i]) {
        Err(TokenError::InvalidField)
    } else if join(action, fields).len() > MAX_TOKEN_LEN {
        Err(TokenError::TooLong)
    } else {
        Ok(join(action, fields))
    }
}

/// What decoding a token into an action and `n` fields gives.
pub open spec fn decode_spec(token: Seq<char>, n: nat) -> Result<
    (Seq<char>, Seq<Seq<char>>),
    TokenError,
> {
    if token.len() > MAX_TOKEN_LEN {
        Err(TokenError::TooLong)
    } else if !has_delim(token) {
        Err(TokenError::NoAction)
    } else if split_left(token, n + 1).len() != n + 1 {
        Err(TokenError::MissingField)
    } else {
        let p = split_left(token, n + 1);
        Ok((p[0], p.drop_first()))
    }
}

pub proof fn lemma_index_of(s: Seq<char>, c: char)
    ensures
        index_of(s, c) == -1 <==> !has_char(s, c),
        index_of(s, c) != -1 ==> {
            &&& 0 <= index_of(s, c) < s.len()
            &&& s[index_of(s, c)] == c
            &&& forall|j: int| 0 <= j < index_of(s, c) ==> s[j] != c
        },
    decreases s.len(),
{
    if s.len() > 0 && s[0] != c {
        let t = s.drop_first();
        lemma_index_of(t, c);
        if has_char(s, c) {
            let i = choose|i: int| 0 <= i < s.len() && s[i] == c;
            assert(t[i - 1] == c);
        }
        if has_char(t, c) {
            let i = choose|i: int| 0 <= i < t.len() && t[i] == c;
            assert(s[i + 1] == c);
        }
        if index_of(t, c) != -1 {
            assert forall|j: int| 0 <= j < index_of(s, c) implies s[j] != c by {
                if j > 0 {
                    assert(s[j] == t[j - 1]);
                }
            }
        }
    } else if s.len() > 0 {
        assert(s[0] == c);
    }
}

proof fn lemma_split_by_len(s: Seq<char>, c: char, k: nat)
    requires
        k >= 1,
    ensures
        1 <= split_by(s, c, k).len() <= k,
    decreases k,
{
    if k > 1 && index_of(s, c) >= 0 {
        let i = index_of(s, c);
        lemma_split_by_len(s.subrange(i + 1, s.len() as int), c, (k - 1) as nat);
    }
}

/// The first `c` is the one with none before it.
pub proof fn lemma_first_index(s: Seq<char>, c: char, i: int)
    requires
        0 <= i < s.len(),
        s[i] == c,
        forall|j: int| 0 <= j < i ==> s[j] != c,
    ensures
        index_of(s, c) == i,
{
    lemma_index_of(s, c);
    let d = index_of(s, c);
    assert(has_char(s, c));
    if d < i {
        assert(s[d] != c);
    } else if d > i {
        assert(s[i] != c);
    }
}

proof fn lemma_split_join(action: Seq<char>, fields: Seq<Seq<char>>)
    requires
        !has_delim(action),
        forall|i: int| 0 <= i < fields.len() ==> !has_delim(#[trigger] fields[i]),
    ensures
        split_left(join(action, fields), fields.len() + 1) == seq![action] + fields,
    decreases fields.len(),
{
    let s = join(action, fields);
    if fields.len() == 0 {
        assert(s =~= action);
        assert(seq![action] + fields =~= seq![action]);
    } else {
        let rest = fields.drop_first();
        assert forall|i: int| 0 <= i < rest.len() implies !has_delim(#[trigger] rest[i]) by {
            assert(rest[i] == fields[i + 1]);
        }
        assert(!has_delim(fields[0]));
        lemma_split_join(fields[0], rest);
        let a = action.len() as int;
        assert(s =~= action + (seq![DELIM] + join(fields[0], rest)));
        assert forall|j: int| 0 <= j < a implies s[j] != DELIM by {
            assert(s[j] == action[j]);
        }
        lemma_first_index(s, DELIM, a);
        assert(s.subrange(0, a) =~= action);
        assert(s.subrange(a + 1, s.len() as int) =~= join(fields[0], rest));
        assert(seq![action] + (seq![fields[0]] + rest) =~= seq![action] + fields);
    }
}

proof fn lemma_tail_join_push(fields: Seq<Seq<char>>, x: Seq<char>)
    ensures
        tail_join(fields.push(x)) == tail_join(fields) + seq![DELIM] + x,
    decreases fields.len(),
{
    if fields.len() == 0 {
        assert(fields.push(x).drop_first() =~= Seq::<Seq<char>>::empty());
        assert(tail_join(Seq::<Seq<char>>::empty()) == Seq::<char>::empty());
        assert(fields.push(x)[0] == x);
        assert(tail_join(fields.push(x)) =~= seq![DELIM] + x);
    } else {
        assert(fields.push(x).drop_first() =~= fields.drop_first().push(x));
        lemma_tail_join_push(fields.drop_first(), x);
        assert(tail_join(fields.push(x)) =~= tail_join(fields) + seq![DELIM] + x);
    }
}

/// Decoding what `encode` produced gives back the action and its fields, as
/// long as there is at least one field to carry the delimiter.
pub proof fn lemma_decode_encode(action: Seq<char>, fields: Seq<Seq<char>>, token: Seq<char>)
    requires
        fields.len() >= 1,
        encode_spec(action, fields) == Ok::<Seq<char>, TokenError>(token),
    ensures
        decode_spec(token, fields.len()) == Ok::<(Seq<char>, Seq<Seq<char>>), TokenError>(
            (action, fields),
        ),
{
    assert(token == join(action, fields));
    assert forall|i: int| 0 <= i < fields.len() implies !has_delim(#[trigger] fields[i]) by {}
    lemma_split_join(action, fields);
    let a = action.len() as int;
    assert(token[a] == DELIM);
    assert((seq![action] + fields).drop_first() =~= fields);
}

/// A field that holds the delimiter cannot be encoded, whatever the rest.
pub proof fn lemma_encode_rejects_delimiter(action: Seq<char>, fields: Seq<Seq<char>>, i: int)
    requires
        0 <= i < fields.len(),
        has_delim(fields[i]),
    ensures
        encode_spec(action, fields) == Err::<Seq<char>, TokenError>(TokenError::InvalidField),
{
}

/// A token longer than the platform's ceiling is not decoded.
pub proof fn lemma_decode_rejects_long(token: Seq<char>, n: nat)
    requires
        token.len() > MAX_TOKEN_LEN,
    ensures
        decode_spec(token, n) == Err::<(Seq<char>, Seq<Seq<char>>), TokenError>(TokenError::TooLong),
{
}

/// Index of the first `c` in `s` at or after `from`, or the length of `s`.
pub fn find_char(s: &str, c: char, from: usize) -> (r: usize)
    requires
        from <= s@.len(),
    ensures
        from <= r <= s@.len(),
        forall|j: int| from <= j < r ==> s@[j] != c,
        r < s@.len() ==> s@[r as int] == c,
{
    let len = s.unicode_len();
    let mut i = from;
    while i < len
        invariant
            len == s@.len(),
            from <= i <= len,
            forall|j: int| from <= j < i ==> s@[j] != c,
        decreases len - i,
    {
        if s.get_char(i) == c {
            return i;
        }
        i = i + 1;
    }
    i
}

/// Splits `s` at its first `n` occurrences of `c`, from the left, into at
/// most `n + 1` pieces; the last piece keeps the remainder.
pub fn split_n(s: &str, c: char, n: usize) -> (r: Vec<String>)
    ensures
        string_views(r@) == split_by(s@, c, n as nat + 1),
{
    let len = s.unicode_len();
    let ghost whole = split_by(s@, c, n as nat + 1);
    let mut parts: Vec<String> = Vec::new();
    let mut pos: usize = 0;
    let mut cut = true;
    assert(string_views(parts@) + whole =~= whole);
    assert(s@.subrange(0, len as int) =~= s@);
    while cut && parts.len() < n
        invariant
            len == s@.len(),
            pos <= len,
            parts.len() <= n,
            whole == split_by(s@, c, n as nat + 1),
            cut ==> whole == string_views(parts@) + split_by(
                s@.subrange(pos as int, len as int),
                c,
                (n + 1 - parts.len()) as nat,
            ),
            !cut ==> whole == string_views(parts@) + seq![s@.subrange(pos as int, len as int)],
        decreases len - pos + (if cut { 1int } else { 0int }),
    {
        let ghost rest = s@.subrange(pos as int, len as int);
        let d = find_char(s, c, pos);
        proof {
            lemma_index_of(rest, c);
        }
        if d == len {
            proof {
                assert forall|j: int| 0 <= j < rest.len() implies rest[j] != c by {
                    assert(rest[j] == s@[pos + j]);
                }
            }
            cut = false;
        } else {
            proof {
                assert forall|j: int| 0 <= j < d - pos implies rest[j] != c by {
                    assert(rest[j] == s@[pos + j]);
                }
                lemma_first_index(rest, c, d - pos);
                assert(rest.subrange(0, d - pos) =~= s@.subrange(pos as int, d as int));
                assert(rest.subrange(d - pos + 1, rest.len() as int) =~= s@.subrange(
                    d + 1,
                    len as int,
                ));
            }
            let piece = s.substring_char(pos, d).to_string();
            let ghost old_parts = parts@;
            parts.push(piece);
            proof {
                assert(string_views(parts@) =~= string_views(old_parts).push(piece@));
            }
            pos = d + 1;
        }
    }
    let last = s.substring_char(pos, len).to_string();
    let ghost before = parts@;
    parts.push(last);
    proof {
        let rest = s@.subrange(pos as int, len as int);
        if cut {
            assert(split_by(rest, c, 1) == seq![rest]);
        }
        assert(string_views(parts@) =~= string_views(before) + seq![rest]);
    }
    parts
}

/// Whether `s` holds the delimiter.
pub fn contains_delim(s: &str) -> (r: bool)
    ensures
        r == has_delim(s@),
{
    let d = find_char(s, DELIM, 0);
    d < s.unicode_len()
}

/// Builds the token for `action` and `fields`.
pub fn encode(action: &str, fields: &Vec<String>) -> (r: Result<String, TokenError>)
    ensures
        match r {
            Ok(t) => encode_spec(action@, string_views(fields@)) == Ok::<Seq<char>, TokenError>(t@),
            Err(e) => encode_spec(action@, string_views(fields@)) == Err::<Seq<char>, TokenError>(e),
        },
{
    let ghost fs = string_views(fields@);
    if contains_delim(action) {
        return Err(TokenError::InvalidField);
    }
    let mut i: usize = 0;
    while i < fields.len()
        invariant
            fs == string_views(fields@),
            i <= fields.len(),
            forall|j: int| 0 <= j < i ==> !has_delim(#[trigger] fs[j]),
        decreases fields.len() - i,
    {
        if contains_delim(fields[i].as_str()) {
            assert(fs[i as int] == fields@[i as int]@);
            return Err(TokenError::InvalidField);
        }
        i = i + 1;
    }
    let mut out = String::from_str(action);
    let mut k: usize = 0;
    while k < fields.len()
        invariant
            fs == string_views(fields@),
            k <= fields.len(),
            out@ == join(action@, fs.take(k as int)),
        decreases fields.len() - k,
    {
        proof {
            lemma_tail_join_push(fs.take(k as int), fs[k as int]);
            assert(fs.take(k as int).push(fs[k as int]) =~= fs.take(k + 1));
        }
        out.append(":");
        out.append(fields[k].as_str());
        proof {
            reveal_strlit(":");
        }
        assert(out@ =~= join(action@, fs.take(k + 1)));
        k = k + 1;
    }
    assert(fs.take(fields.len() as int) =~= fs);
    if out.unicode_len() > MAX_TOKEN_LEN {
        return Err(TokenError::TooLong);
    }
    Ok(out)
}

/// Reads a token into its action and `n` fields. The token is split from the
/// left; the last field keeps whatever follows, delimiters included.
pub fn decode(token: &str, n: usize) -> (r: Result<(String, Vec<String>), TokenError>)
    ensures
        match r {
            Ok((a, fs)) => decode_spec(token@, n as nat) == Ok::<
                (Seq<char>, Seq<Seq<char>>),
                TokenError,
            >((a@, string_views(fs@))),
            Err(e) => decode_spec(token@, n as nat) == Err::<
                (Seq<char>, Seq<Seq<char>>),
                TokenError,
            >(e),
        },
{
    let len = token.unicode_len();
    if len > MAX_TOKEN_LEN {
        return Err(TokenError::TooLong);
    }
    if !contains_delim(token) {
        return Err(TokenError::NoAction);
    }
    let mut parts = split_n(token, DELIM, n);
    if parts.len() <= n {
        return Err(TokenError::MissingField);
    }
    let ghost whole = string_views(parts@);
    proof {
        lemma_split_by_len(token@, DELIM, n as nat + 1);
    }
    let action = parts.remove(0);
    proof {
        assert(string_views(parts@) =~= whole.drop_first());
        assert(action@ == whole[0]);
    }
    Ok((action, parts))
}

} // verus!
