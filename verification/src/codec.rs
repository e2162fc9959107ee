//! A JSON codec for the witness's string-valued records: serialization to
//! the exact output text, a parser for it, and the round-trip law that
//! parsing a serialized record yields the record again. Every leaf value of
//! a witness is a string; the codec escapes the two characters JSON cannot
//! carry verbatim in a string, the quote and the backslash.

use vstd::prelude::*;
use crate::collector::string_from_chars;
use crate::types::AccountProof;
use crate::types::AccountState;
use crate::types::Block;
use crate::types::BlockWitness;
use crate::types::StorageProof;
use crate::types::Transaction;
use crate::types::TransactionOrHash;
use crate::types::TransactionReceipt;

verus! {

/// One character as JSON string content: quote and backslash escaped, every
/// other character verbatim.
pub open spec fn esc_char(c: char) -> Seq<char> {
    if c == '"' || c == '\\' {
        seq!['\\', c]
    } else {
        seq![c]
    }
}

/// A character sequence as JSON string content.
pub open spec fn esc(s: Seq<char>) -> Seq<char>
    decreases s.len(),
{
    if s.len() == 0 {
        Seq::empty()
    } else {
        esc_char(s[0]) + esc(s.skip(1))
    }
}

/// The serialized form of one string value: quoted, escaped content.
pub open spec fn ser_string(s: Seq<char>) -> Seq<char> {
    seq!['"'] + esc(s) + seq!['"']
}

/// Escaping commutes with appending one character.
pub proof fn lemma_esc_snoc(s: Seq<char>, c: char)
    ensures
        esc(s.push(c)) == esc(s) + esc_char(c),
    decreases s.len(),
{
    if s.len() == 0 {
        assert(s.push(c)[0] == c);
        assert(s.push(c).skip(1) =~= Seq::<char>::empty());
        assert(esc(s.push(c)) == esc_char(c) + esc(Seq::<char>::empty()));
        assert(esc_char(c) + Seq::<char>::empty() =~= esc_char(c));
        assert(s =~= Seq::<char>::empty());
        assert(Seq::<char>::empty() + esc_char(c) =~= esc_char(c));
    } else {
        assert(s.push(c).skip(1) =~= s.skip(1).push(c));
        lemma_esc_snoc(s.skip(1), c);
        assert(esc(s.push(c)) =~= esc(s) + esc_char(c));
    }
}

/// The string-content parser: consumes escaped content up to an unescaped
/// closing quote, returning the unescaped characters and the position after
/// the quote.
pub open spec fn parse_content(input: Seq<char>, i: int) -> Option<(Seq<char>, int)>
    decreases input.len() - i,
{
    if i < 0 || i >= input.len() {
        None
    } else if input[i] == '"' {
        Some((Seq::empty(), i + 1))
    } else if input[i] == '\\' {
        if i + 1 < input.len() && (input[i + 1] == '"' || input[i + 1] == '\\') {
            match parse_content(input, i + 2) {
                Some((t, j)) => Some((seq![input[i + 1]] + t, j)),
                None => None,
            }
        } else {
            None
        }
    } else {
        match parse_content(input, i + 1) {
            Some((t, j)) => Some((seq![input[i]] + t, j)),
            None => None,
        }
    }
}

/// The string parser: an opening quote, then content.
pub open spec fn parse_string(input: Seq<char>, i: int) -> Option<(Seq<char>, int)> {
    if 0 <= i < input.len() && input[i] == '"' {
        parse_content(input, i + 1)
    } else {
        None
    }
}

/// Parsing inverts escaping: content that is an escaped string followed by a
/// closing quote parses back to that string.
pub proof fn lemma_content_roundtrip(s: Seq<char>, input: Seq<char>, i: int)
    requires
        0 <= i,
        i + esc(s).len() + 1 <= input.len(),
        input.subrange(i, i + esc(s).len()) == esc(s),
        input[i + esc(s).len()] == '"',
    ensures
        parse_content(input, i) == Some((s, i + esc(s).len() + 1)),
    decreases s.len(),
{
    if s.len() == 0 {
        assert(input[i] == '"');
    } else {
        let c = s[0];
        let rest = s.skip(1);
        assert(esc(s) == esc_char(c) + esc(rest));
        let off = esc_char(c).len();
        assert forall|k: int| 0 <= k < esc(rest).len() implies input[i + off + k] == esc(rest)[k] by {
            assert(input[i + off + k] == input.subrange(i, i + esc(s).len())[off + k]);
            assert(esc(s)[off + k] == esc(rest)[k]);
        }
        assert(input.subrange(i + off, i + off + esc(rest).len()) =~= esc(rest));
        assert(input[i + off + esc(rest).len()] == '"');
        lemma_content_roundtrip(rest, input, i + off);
        assert(input[i] == esc(s)[0]) by {
            assert(input.subrange(i, i + esc(s).len())[0] == esc(s)[0]);
        }
        if c == '"' || c == '\\' {
            assert(input[i] == '\\');
            assert(input[i + 1] == esc(s)[1]) by {
                assert(input.subrange(i, i + esc(s).len())[1] == esc(s)[1]);
            }
            assert(input[i + 1] == c);
            assert(seq![c] + rest =~= s);
        } else {
            assert(input[i] == c);
            assert(seq![c] + rest =~= s);
        }
    }
}

/// Parsing inverts serialization for one string value, wherever it stands in
/// a larger text.
pub proof fn lemma_string_roundtrip(s: Seq<char>, input: Seq<char>, i: int)
    requires
        0 <= i,
        i + ser_string(s).len() <= input.len(),
        input.subrange(i, i + ser_string(s).len()) == ser_string(s),
    ensures
        parse_string(input, i) == Some((s, i + ser_string(s).len())),
{
    assert(input[i] == '"') by {
        assert(input.subrange(i, i + ser_string(s).len())[0] == ser_string(s)[0]);
    }
    assert forall|k: int| 0 <= k < esc(s).len() implies input[i + 1 + k] == esc(s)[k] by {
        assert(input.subrange(i, i + ser_string(s).len())[1 + k] == ser_string(s)[1 + k]);
        assert(ser_string(s)[1 + k] == esc(s)[k]);
    }
    assert(input.subrange(i + 1, i + 1 + esc(s).len()) =~= esc(s));
    assert(input[i + 1 + esc(s).len()] == '"') by {
        assert(input.subrange(i, i + ser_string(s).len())[1 + esc(s).len() as int]
            == ser_string(s)[1 + esc(s).len() as int]);
    }
    lemma_content_roundtrip(s, input, i + 1);
}

/// Escapes a string's characters for JSON string content.
fn escaped(s: &str) -> (r: String)
    ensures
        r@ == esc(s@),
{
    let len = s.unicode_len();
    let mut v: Vec<char> = Vec::new();
    let mut i: usize = 0;
    while i < len
        invariant
            i <= len,
            len == s@.len(),
            v@ =~= esc(s@.take(i as int)),
        decreases len - i,
    {
        let c = s.get_char(i);
        if c == '"' || c == '\\' {
            v.push('\\');
            v.push(c);
        } else {
            v.push(c);
        }
        proof {
            assert(s@.take(i as int).push(s@[i as int]) =~= s@.take(i + 1));
            lemma_esc_snoc(s@.take(i as int), s@[i as int]);
            assert(v@ =~= esc(s@.take(i + 1)));
        }
        i = i + 1;
    }
    proof {
        assert(s@.take(len as int) =~= s@);
    }
    string_from_chars(&v)
}

/// Appends the serialized form of one string value.
fn append_string(out: &mut String, s: &str)
    ensures
        final(out)@ == old(out)@ + ser_string(s@),
{
    let quote = "\"";
    proof {
        reveal_strlit("\"");
        assert(quote@ =~= seq!['"']);
    }
    out.append(quote);
    let e = escaped(s);
    out.append(e.as_str());
    out.append(quote);
    proof {
        assert(out@ =~= old(out)@ + ser_string(s@));
    }
}

/// The serialized form of one account state record, with the field names of
/// the output document.
pub open spec fn ser_account_state(st: AccountState) -> Seq<char> {
    "{\"balance_before\":"@ + ser_string(st.balance_before@) + ",\"balance_after\":"@ + ser_string(
        st.balance_after@,
    ) + ",\"nonce_before\":"@ + ser_string(st.nonce_before@) + ",\"nonce_after\":"@ + ser_string(
        st.nonce_after@,
    ) + ",\"code\":"@ + ser_string(st.code@) + "}"@
}

/// Serializes one account state record to its JSON text.
pub fn serialize_account_state(st: &AccountState) -> (r: String)
    ensures
        r@ == ser_account_state(*st),
{
    let mut out = String::new();
    append_account_state_body(&mut out, st);
    proof {
        assert(out@ =~= ser_account_state(*st));
    }
    out
}

/// The field values of an account state record, as character sequences.
pub struct AccountStateV {
    pub balance_before: Seq<char>,
    pub balance_after: Seq<char>,
    pub nonce_before: Seq<char>,
    pub nonce_after: Seq<char>,
    pub code: Seq<char>,
}

/// The view of an account state record.
pub open spec fn state_view(st: AccountState) -> AccountStateV {
    AccountStateV {
        balance_before: st.balance_before@,
        balance_after: st.balance_after@,
        nonce_before: st.nonce_before@,
        nonce_after: st.nonce_after@,
        code: st.code@,
    }
}

/// A literal expected at a position: the position after it when it is there.
pub open spec fn expect(input: Seq<char>, i: int, lit: Seq<char>) -> Option<int> {
    if 0 <= i && i + lit.len() <= input.len() && input.subrange(i, i + lit.len()) == lit {
        Some(i + lit.len())
    } else {
        None
    }
}

/// The account state parser: the five fields in serialization order.
pub open spec fn parse_account_state_at(input: Seq<char>, i: int) -> Option<(AccountStateV, int)> {
    match expect(input, i, "{\"balance_before\":"@) {
        None => None,
        Some(j0) => match parse_string(input, j0) {
            None => None,
            Some((bb, j1)) => match expect(input, j1, ",\"balance_after\":"@) {
                None => None,
                Some(j2) => match parse_string(input, j2) {
                    None => None,
                    Some((ba, j3)) => match expect(input, j3, ",\"nonce_before\":"@) {
                        None => None,
                        Some(j4) => match parse_string(input, j4) {
                            None => None,
                            Some((nb, j5)) => match expect(input, j5, ",\"nonce_after\":"@) {
                                None => None,
                                Some(j6) => match parse_string(input, j6) {
                                    None => None,
                                    Some((na, j7)) => match expect(input, j7, ",\"code\":"@) {
                                        None => None,
                                        Some(j8) => match parse_string(input, j8) {
                                            None => None,
                                            Some((cd, j9)) => match expect(input, j9, "}"@) {
                                                None => None,
                                                Some(j10) => Some(
                                                    (
                                                        AccountStateV {
                                                            balance_before: bb,
                                                            balance_after: ba,
                                                            nonce_before: nb,
                                                            nonce_after: na,
                                                            code: cd,
                                                        },
                                                        j10,
                                                    ),
                                                ),
                                            },
                                        },
                                    },
                                },
                            },
                        },
                    },
                },
            },
        },
    }
}

/// A piece of a concatenation found at its offset within a larger text.
proof fn lemma_piece_at(input: Seq<char>, i: int, whole: Seq<char>, off: int, part: Seq<char>)
    requires
        0 <= i,
        i + whole.len() <= input.len(),
        input.subrange(i, i + whole.len()) == whole,
        0 <= off,
        off + part.len() <= whole.len(),
        whole.subrange(off, off + part.len()) == part,
    ensures
        input.subrange(i + off, i + off + part.len()) == part,
{
    assert forall|k: int| 0 <= k < part.len() implies input[i + off + k] == part[k] by {
        assert(input.subrange(i, i + whole.len())[off + k] == whole[off + k]);
        assert(whole.subrange(off, off + part.len())[k] == part[k]);
    }
    assert(input.subrange(i + off, i + off + part.len()) =~= part);
}

/// Round trip: parsing the serialized text of an account state record,
/// wherever it stands in a larger text, yields the record's values again
/// and ends right after its closing brace.
pub proof fn lemma_account_state_roundtrip(st: AccountState, input: Seq<char>, i: int)
    requires
        0 <= i,
        i + ser_account_state(st).len() <= input.len(),
        input.subrange(i, i + ser_account_state(st).len()) == ser_account_state(st),
    ensures
        parse_account_state_at(input, i) == Some(
            (state_view(st), i + ser_account_state(st).len()),
        ),
{
    let whole = ser_account_state(st);
    let lab0 = "{\"balance_before\":"@;
    let lab1 = ",\"balance_after\":"@;
    let lab2 = ",\"nonce_before\":"@;
    let lab3 = ",\"nonce_after\":"@;
    let lab4 = ",\"code\":"@;
    let lab5 = "}"@;
    let s0 = ser_string(st.balance_before@);
    let s1 = ser_string(st.balance_after@);
    let s2 = ser_string(st.nonce_before@);
    let s3 = ser_string(st.nonce_after@);
    let s4 = ser_string(st.code@);
    let o0 = lab0.len() as int;
    let o1 = o0 + s0.len() as int;
    let o2 = o1 + lab1.len() as int;
    let o3 = o2 + s1.len() as int;
    let o4 = o3 + lab2.len() as int;
    let o5 = o4 + s2.len() as int;
    let o6 = o5 + lab3.len() as int;
    let o7 = o6 + s3.len() as int;
    let o8 = o7 + lab4.len() as int;
    let o9 = o8 + s4.len() as int;
    assert(whole.subrange(0, o0) =~= lab0);
    assert(whole.subrange(o0, o1) =~= s0);
    assert(whole.subrange(o1, o2) =~= lab1);
    assert(whole.subrange(o2, o3) =~= s1);
    assert(whole.subrange(o3, o4) =~= lab2);
    assert(whole.subrange(o4, o5) =~= s2);
    assert(whole.subrange(o5, o6) =~= lab3);
    assert(whole.subrange(o6, o7) =~= s3);
    assert(whole.subrange(o7, o8) =~= lab4);
    assert(whole.subrange(o8, o9) =~= s4);
    assert(whole.subrange(o9, whole.len() as int) =~= lab5);
    lemma_piece_at(input, i, whole, 0, lab0);
    lemma_piece_at(input, i, whole, o0, s0);
    lemma_piece_at(input, i, whole, o1, lab1);
    lemma_piece_at(input, i, whole, o2, s1);
    lemma_piece_at(input, i, whole, o3, lab2);
    lemma_piece_at(input, i, whole, o4, s2);
    lemma_piece_at(input, i, whole, o5, lab3);
    lemma_piece_at(input, i, whole, o6, s3);
    lemma_piece_at(input, i, whole, o7, lab4);
    lemma_piece_at(input, i, whole, o8, s4);
    lemma_piece_at(input, i, whole, o9, lab5);
    lemma_string_roundtrip(st.balance_before@, input, i + o0);
    lemma_string_roundtrip(st.balance_after@, input, i + o2);
    lemma_string_roundtrip(st.nonce_before@, input, i + o4);
    lemma_string_roundtrip(st.nonce_after@, input, i + o6);
    lemma_string_roundtrip(st.code@, input, i + o8);
}

/// Matches a literal at a position, character by character.
fn expect_lit(s: &str, i: usize, lit: &str) -> (r: Option<usize>)
    ensures
        match r {
            Some(j) => expect(s@, i as int, lit@) == Some(j as int) && i <= j <= s@.len(),
            None => expect(s@, i as int, lit@) is None,
        },
{
    let len = s.unicode_len();
    let lit_len = lit.unicode_len();
    if i > len || lit_len > len - i {
        return None;
    }
    let mut k: usize = 0;
    while k < lit_len
        invariant
            k <= lit_len,
            i + lit_len <= len,
            len == s@.len(),
            lit_len == lit@.len(),
            forall|m: int| 0 <= m < k ==> s@[i + m] == lit@[m],
        decreases lit_len - k,
    {
        if s.get_char(i + k) != lit.get_char(k) {
            proof {
                assert(s@.subrange(i as int, i + lit@.len())[k as int] != lit@[k as int]);
            }
            return None;
        }
        k = k + 1;
    }
    proof {
        assert(s@.subrange(i as int, i + lit@.len()) =~= lit@);
    }
    Some(i + lit_len)
}

/// What the content loop has established so far: the whole content parse is
/// the collected prefix joined onto the parse from the current position.
pub open spec fn content_result(pre: Seq<char>, r: Option<(Seq<char>, int)>) -> Option<
    (Seq<char>, int),
> {
    match r {
        Some((t, j)) => Some((pre + t, j)),
        None => None,
    }
}

/// Parses one string value at a position.
fn parse_string_at(s: &str, i: usize) -> (r: Option<(String, usize)>)
    ensures
        match r {
            Some(p) => parse_string(s@, i as int) == Some((p.0@, p.1 as int)) && i < p.1 <= s@.len(),
            None => parse_string(s@, i as int) is None,
        },
{
    let len = s.unicode_len();
    if i >= len || s.get_char(i) != '"' {
        return None;
    }
    let mut cur: usize = i + 1;
    let mut collected: Vec<char> = Vec::new();
    loop
        invariant
            i + 1 <= cur <= len,
            len == s@.len(),
            i < len,
            s@[i as int] == '"',
            parse_content(s@, i + 1) == content_result(
                collected@,
                parse_content(s@, cur as int),
            ),
        decreases len - cur,
    {
        if cur >= len {
            return None;
        }
        let c = s.get_char(cur);
        if c == '"' {
            proof {
                assert(collected@ + Seq::<char>::empty() =~= collected@);
            }
            let v = string_from_chars(&collected);
            return Some((v, cur + 1));
        } else if c == '\\' {
            if cur + 1 >= len {
                return None;
            }
            let c2 = s.get_char(cur + 1);
            if c2 == '"' || c2 == '\\' {
                proof {
                    if parse_content(s@, cur + 2) is Some {
                        let tj = parse_content(s@, cur + 2)->0;
                        assert(collected@ + (seq![s@[cur + 1]] + tj.0) =~= collected@.push(
                            s@[cur + 1],
                        ) + tj.0);
                    }
                }
                collected.push(c2);
                cur = cur + 2;
            } else {
                return None;
            }
        } else {
            proof {
                if parse_content(s@, cur + 1) is Some {
                    let tj = parse_content(s@, cur + 1)->0;
                    assert(collected@ + (seq![s@[cur as int]] + tj.0) =~= collected@.push(
                        s@[cur as int],
                    ) + tj.0);
                }
            }
            collected.push(c);
            cur = cur + 1;
        }
    }
}

/// Parses one account state record from its full JSON text. Succeeds exactly
/// when the whole text is a serialized account state record, and yields the
/// record whose serialization it is.
pub fn parse_account_state(s: &str) -> (r: Option<AccountState>)
    ensures
        match r {
            Some(st) => parse_account_state_at(s@, 0) == Some((state_view(st), s@.len() as int)),
            None => (match parse_account_state_at(s@, 0) {
                Some(p) => p.1 != s@.len(),
                None => true,
            }),
        },
{
    let len = s.unicode_len();
    let j0 = match expect_lit(s, 0, "{\"balance_before\":") {
        Some(j) => j,
        None => {
            return None;
        },
    };
    let (balance_before, j1) = match parse_string_at(s, j0) {
        Some(p) => p,
        None => {
            return None;
        },
    };
    let j2 = match expect_lit(s, j1, ",\"balance_after\":") {
        Some(j) => j,
        None => {
            return None;
        },
    };
    let (balance_after, j3) = match parse_string_at(s, j2) {
        Some(p) => p,
        None => {
            return None;
        },
    };
    let j4 = match expect_lit(s, j3, ",\"nonce_before\":") {
        Some(j) => j,
        None => {
            return None;
        },
    };
    let (nonce_before, j5) = match parse_string_at(s, j4) {
        Some(p) => p,
        None => {
            return None;
        },
    };
    let j6 = match expect_lit(s, j5, ",\"nonce_after\":") {
        Some(j) => j,
        None => {
            return None;
        },
    };
    let (nonce_after, j7) = match parse_string_at(s, j6) {
        Some(p) => p,
        None => {
            return None;
        },
    };
    let j8 = match expect_lit(s, j7, ",\"code\":") {
        Some(j) => j,
        None => {
            return None;
        },
    };
    let (code, j9) = match parse_string_at(s, j8) {
        Some(p) => p,
        None => {
            return None;
        },
    };
    let j10 = match expect_lit(s, j9, "}") {
        Some(j) => j,
        None => {
            return None;
        },
    };
    if j10 != len {
        return None;
    }
    Some(AccountState { balance_before, balance_after, nonce_before, nonce_after, code })
}


/// Serialized pieces joined with commas.
pub open spec fn ser_pieces(pieces: Seq<Seq<char>>) -> Seq<char>
    decreases pieces.len(),
{
    if pieces.len() == 0 {
        Seq::empty()
    } else if pieces.len() == 1 {
        pieces[0]
    } else {
        ser_pieces(pieces.drop_last()) + seq![','] + pieces.last()
    }
}

/// A JSON array of already serialized pieces.
pub open spec fn ser_array(pieces: Seq<Seq<char>>) -> Seq<char> {
    seq!['['] + ser_pieces(pieces) + seq![']']
}

/// A JSON object of already serialized members (each one `"key":value`).
pub open spec fn ser_object(members: Seq<Seq<char>>) -> Seq<char> {
    seq!['{'] + ser_pieces(members) + seq!['}']
}

/// The serialized elements of a string array.
pub open spec fn string_pieces(xs: Seq<Seq<char>>) -> Seq<Seq<char>> {
    xs.map_values(|x: Seq<char>| ser_string(x))
}

/// Appends a JSON array of string values.
#[verifier::loop_isolation(false)]
fn append_string_array(out: &mut String, xs: &Vec<String>)
    ensures
        final(out)@ == old(out)@ + ser_array(string_pieces(xs.deep_view())),
{
    let bracket_open = "[";
    let bracket_close = "]";
    let comma = ",";
    proof {
        reveal_strlit("[");
        reveal_strlit("]");
        reveal_strlit(",");
    }
    out.append(bracket_open);
    let mut i: usize = 0;
    while i < xs.len()
        invariant
            i <= xs.len(),
            out@ =~= old(out)@ + seq!['['] + ser_pieces(string_pieces(xs.deep_view().take(i as int))),
        decreases xs.len() - i,
    {
        if i > 0 {
            out.append(comma);
        }
        append_string(out, xs[i].as_str());
        proof {
            assert(xs.deep_view()[i as int] == xs@[i as int]@);
            let part = string_pieces(xs.deep_view().take(i + 1));
            assert(part.last() == ser_string(xs.deep_view()[i as int]));
            if i == 0 {
                assert(part.len() == 1);
                assert(ser_pieces(part) == part[0]);
            } else {
                assert(part.drop_last() =~= string_pieces(xs.deep_view().take(i as int)));
                assert(ser_pieces(part) == ser_pieces(part.drop_last()) + seq![','] + part.last());
            }
            assert(out@ =~= old(out)@ + seq!['['] + ser_pieces(part));
        }
        i = i + 1;
    }
    out.append(bracket_close);
    proof {
        assert(xs.deep_view().take(xs@.len() as int) =~= xs.deep_view());
        assert(out@ =~= old(out)@ + ser_array(string_pieces(xs.deep_view())));
    }
}


/// An optional string value: the string, or the JSON null.
pub open spec fn ser_opt_string(o: Option<String>) -> Seq<char> {
    match o {
        Some(s) => ser_string(s@),
        None => "null"@,
    }
}

/// Appends an optional string value.
fn append_opt_string(out: &mut String, o: &Option<String>)
    ensures
        final(out)@ == old(out)@ + ser_opt_string(*o),
{
    match o {
        Some(s) => {
            append_string(out, s.as_str());
        },
        None => {
            out.append("null");
        },
    }
}

/// The serialized form of one transaction.
pub open spec fn ser_transaction(t: Transaction) -> Seq<char> {
    "{\"hash\":"@ + ser_string(t.hash@) + ",\"from\":"@ + ser_string(t.from@) + ",\"to\":"@
        + ser_opt_string(t.to) + ",\"input\":"@ + ser_string(t.input@) + "}"@
}

/// Appends one transaction.
fn append_transaction(out: &mut String, t: &Transaction)
    ensures
        final(out)@ == old(out)@ + ser_transaction(*t),
{
    out.append("{\"hash\":");
    append_string(out, t.hash.as_str());
    out.append(",\"from\":");
    append_string(out, t.from.as_str());
    out.append(",\"to\":");
    append_opt_string(out, &t.to);
    out.append(",\"input\":");
    append_string(out, t.input.as_str());
    out.append("}");
    proof {
        assert(out@ =~= old(out)@ + ser_transaction(*t));
    }
}

/// The serialized form of one transaction slot: a full body as an object, a
/// bare hash as a string.
pub open spec fn ser_slot(s: TransactionOrHash) -> Seq<char> {
    match s {
        TransactionOrHash::Full(t) => ser_transaction(t),
        TransactionOrHash::Hash(h) => ser_string(h@),
    }
}

/// The serialized elements of a slot list.
pub open spec fn slot_pieces(ss: Seq<TransactionOrHash>) -> Seq<Seq<char>> {
    ss.map_values(|s: TransactionOrHash| ser_slot(s))
}

/// Appends a block's transaction slot list.
#[verifier::loop_isolation(false)]
fn append_slot_array(out: &mut String, ss: &Vec<TransactionOrHash>)
    ensures
        final(out)@ == old(out)@ + ser_array(slot_pieces(ss@)),
{
    proof {
        reveal_strlit("[");
        reveal_strlit("]");
        reveal_strlit(",");
    }
    out.append("[");
    let mut i: usize = 0;
    while i < ss.len()
        invariant
            i <= ss.len(),
            out@ =~= old(out)@ + seq!['['] + ser_pieces(slot_pieces(ss@.take(i as int))),
        decreases ss.len() - i,
    {
        if i > 0 {
            out.append(",");
        }
        match &ss[i] {
            TransactionOrHash::Full(t) => {
                append_transaction(out, t);
            },
            TransactionOrHash::Hash(h) => {
                append_string(out, h.as_str());
            },
        }
        proof {
            let part = slot_pieces(ss@.take(i + 1));
            assert(part.last() == ser_slot(ss@[i as int]));
            if i > 0 {
                assert(part.drop_last() =~= slot_pieces(ss@.take(i as int)));
                assert(ser_pieces(part) == ser_pieces(part.drop_last()) + seq![','] + part.last());
            }
            assert(out@ =~= old(out)@ + seq!['['] + ser_pieces(part));
        }
        i = i + 1;
    }
    out.append("]");
    proof {
        assert(ss@.take(ss@.len() as int) =~= ss@);
        assert(out@ =~= old(out)@ + ser_array(slot_pieces(ss@)));
    }
}

/// The serialized form of one block header and body.
pub open spec fn ser_block(b: Block) -> Seq<char> {
    "{\"number\":"@ + ser_string(b.number@) + ",\"hash\":"@ + ser_string(b.hash@)
        + ",\"parentHash\":"@ + ser_string(b.parentHash@) + ",\"stateRoot\":"@ + ser_string(
        b.stateRoot@,
    ) + ",\"transactions\":"@ + ser_array(slot_pieces(b.transactions@)) + "}"@
}

/// Appends one block.
fn append_block(out: &mut String, b: &Block)
    ensures
        final(out)@ == old(out)@ + ser_block(*b),
{
    out.append("{\"number\":");
    append_string(out, b.number.as_str());
    out.append(",\"hash\":");
    append_string(out, b.hash.as_str());
    out.append(",\"parentHash\":");
    append_string(out, b.parentHash.as_str());
    out.append(",\"stateRoot\":");
    append_string(out, b.stateRoot.as_str());
    out.append(",\"transactions\":");
    append_slot_array(out, &b.transactions);
    out.append("}");
    proof {
        assert(out@ =~= old(out)@ + ser_block(*b));
    }
}

/// The serialized form of one storage proof.
pub open spec fn ser_storage_proof(p: StorageProof) -> Seq<char> {
    "{\"key\":"@ + ser_string(p.key@) + ",\"value\":"@ + ser_string(p.value@) + ",\"proof\":"@
        + ser_array(string_pieces(p.proof.deep_view())) + "}"@
}

/// Appends one storage proof.
fn append_storage_proof(out: &mut String, p: &StorageProof)
    ensures
        final(out)@ == old(out)@ + ser_storage_proof(*p),
{
    out.append("{\"key\":");
    append_string(out, p.key.as_str());
    out.append(",\"value\":");
    append_string(out, p.value.as_str());
    out.append(",\"proof\":");
    append_string_array(out, &p.proof);
    out.append("}");
    proof {
        assert(out@ =~= old(out)@ + ser_storage_proof(*p));
    }
}

/// The serialized elements of a storage proof list.
pub open spec fn storage_pieces(ps: Seq<StorageProof>) -> Seq<Seq<char>> {
    ps.map_values(|p: StorageProof| ser_storage_proof(p))
}

/// Appends a storage proof list.
#[verifier::loop_isolation(false)]
fn append_storage_array(out: &mut String, ps: &Vec<StorageProof>)
    ensures
        final(out)@ == old(out)@ + ser_array(storage_pieces(ps@)),
{
    proof {
        reveal_strlit("[");
        reveal_strlit("]");
        reveal_strlit(",");
    }
    out.append("[");
    let mut i: usize = 0;
    while i < ps.len()
        invariant
            i <= ps.len(),
            out@ =~= old(out)@ + seq!['['] + ser_pieces(storage_pieces(ps@.take(i as int))),
        decreases ps.len() - i,
    {
        if i > 0 {
            out.append(",");
        }
        append_storage_proof(out, &ps[i]);
        proof {
            let part = storage_pieces(ps@.take(i + 1));
            assert(part.last() == ser_storage_proof(ps@[i as int]));
            if i > 0 {
                assert(part.drop_last() =~= storage_pieces(ps@.take(i as int)));
                assert(ser_pieces(part) == ser_pieces(part.drop_last()) + seq![','] + part.last());
            }
            assert(out@ =~= old(out)@ + seq!['['] + ser_pieces(part));
        }
        i = i + 1;
    }
    out.append("]");
    proof {
        assert(ps@.take(ps@.len() as int) =~= ps@);
        assert(out@ =~= old(out)@ + ser_array(storage_pieces(ps@)));
    }
}

/// The serialized form of one account proof.
pub open spec fn ser_account_proof(p: AccountProof) -> Seq<char> {
    "{\"address\":"@ + ser_string(p.address@) + ",\"balance\":"@ + ser_string(p.balance@)
        + ",\"nonce\":"@ + ser_string(p.nonce@) + ",\"codeHash\":"@ + ser_string(p.codeHash@)
        + ",\"storageHash\":"@ + ser_string(p.storageHash@) + ",\"accountProof\":"@ + ser_array(
        string_pieces(p.accountProof.deep_view()),
    ) + ",\"storageProof\":"@ + ser_array(storage_pieces(p.storageProof@)) + "}"@
}

/// Appends one account proof.
fn append_account_proof(out: &mut String, p: &AccountProof)
    ensures
        final(out)@ == old(out)@ + ser_account_proof(*p),
{
    out.append("{\"address\":");
    append_string(out, p.address.as_str());
    out.append(",\"balance\":");
    append_string(out, p.balance.as_str());
    out.append(",\"nonce\":");
    append_string(out, p.nonce.as_str());
    out.append(",\"codeHash\":");
    append_string(out, p.codeHash.as_str());
    out.append(",\"storageHash\":");
    append_string(out, p.storageHash.as_str());
    out.append(",\"accountProof\":");
    append_string_array(out, &p.accountProof);
    out.append(",\"storageProof\":");
    append_storage_array(out, &p.storageProof);
    out.append("}");
    proof {
        assert(out@ =~= old(out)@ + ser_account_proof(*p));
    }
}

/// The serialized form of one receipt. Its log entries are raw JSON text and
/// stand in the output verbatim.
pub open spec fn ser_receipt(r: TransactionReceipt) -> Seq<char> {
    "{\"transactionHash\":"@ + ser_string(r.transactionHash@) + ",\"gasUsed\":"@ + ser_string(
        r.gasUsed@,
    ) + ",\"status\":"@ + ser_string(r.status@) + ",\"logs\":"@ + ser_array(r.logs.deep_view())
        + "}"@
}

/// Appends a JSON array whose elements stand verbatim (raw JSON text).
#[verifier::loop_isolation(false)]
fn append_raw_array(out: &mut String, xs: &Vec<String>)
    ensures
        final(out)@ == old(out)@ + ser_array(xs.deep_view()),
{
    proof {
        reveal_strlit("[");
        reveal_strlit("]");
        reveal_strlit(",");
    }
    out.append("[");
    let mut i: usize = 0;
    while i < xs.len()
        invariant
            i <= xs.len(),
            out@ =~= old(out)@ + seq!['['] + ser_pieces(xs.deep_view().take(i as int)),
        decreases xs.len() - i,
    {
        if i > 0 {
            out.append(",");
        }
        out.append(xs[i].as_str());
        proof {
            let part = xs.deep_view().take(i + 1);
            assert(part.last() == xs@[i as int]@);
            if i > 0 {
                assert(part.drop_last() =~= xs.deep_view().take(i as int));
                assert(ser_pieces(part) == ser_pieces(part.drop_last()) + seq![','] + part.last());
            }
            assert(out@ =~= old(out)@ + seq!['['] + ser_pieces(part));
        }
        i = i + 1;
    }
    out.append("]");
    proof {
        assert(xs.deep_view().take(xs@.len() as int) =~= xs.deep_view());
        assert(out@ =~= old(out)@ + ser_array(xs.deep_view()));
    }
}

/// Appends one receipt.
fn append_receipt(out: &mut String, r: &TransactionReceipt)
    ensures
        final(out)@ == old(out)@ + ser_receipt(*r),
{
    out.append("{\"transactionHash\":");
    append_string(out, r.transactionHash.as_str());
    out.append(",\"gasUsed\":");
    append_string(out, r.gasUsed.as_str());
    out.append(",\"status\":");
    append_string(out, r.status.as_str());
    out.append(",\"logs\":");
    append_raw_array(out, &r.logs);
    out.append("}");
    proof {
        assert(out@ =~= old(out)@ + ser_receipt(*r));
    }
}

/// The serialized elements of a transaction list.
pub open spec fn tx_pieces(ts: Seq<Transaction>) -> Seq<Seq<char>> {
    ts.map_values(|t: Transaction| ser_transaction(t))
}

/// Appends a transaction list.
#[verifier::loop_isolation(false)]
fn append_tx_array(out: &mut String, ts: &Vec<Transaction>)
    ensures
        final(out)@ == old(out)@ + ser_array(tx_pieces(ts@)),
{
    proof {
        reveal_strlit("[");
        reveal_strlit("]");
        reveal_strlit(",");
    }
    out.append("[");
    let mut i: usize = 0;
    while i < ts.len()
        invariant
            i <= ts.len(),
            out@ =~= old(out)@ + seq!['['] + ser_pieces(tx_pieces(ts@.take(i as int))),
        decreases ts.len() - i,
    {
        if i > 0 {
            out.append(",");
        }
        append_transaction(out, &ts[i]);
        proof {
            let part = tx_pieces(ts@.take(i + 1));
            assert(part.last() == ser_transaction(ts@[i as int]));
            if i > 0 {
                assert(part.drop_last() =~= tx_pieces(ts@.take(i as int)));
                assert(ser_pieces(part) == ser_pieces(part.drop_last()) + seq![','] + part.last());
            }
            assert(out@ =~= old(out)@ + seq!['['] + ser_pieces(part));
        }
        i = i + 1;
    }
    out.append("]");
    proof {
        assert(ts@.take(ts@.len() as int) =~= ts@);
        assert(out@ =~= old(out)@ + ser_array(tx_pieces(ts@)));
    }
}

/// The serialized elements of a receipt list.
pub open spec fn receipt_pieces(rs: Seq<TransactionReceipt>) -> Seq<Seq<char>> {
    rs.map_values(|r: TransactionReceipt| ser_receipt(r))
}

/// Appends a receipt list.
#[verifier::loop_isolation(false)]
fn append_receipt_array(out: &mut String, rs: &Vec<TransactionReceipt>)
    ensures
        final(out)@ == old(out)@ + ser_array(receipt_pieces(rs@)),
{
    proof {
        reveal_strlit("[");
        reveal_strlit("]");
        reveal_strlit(",");
    }
    out.append("[");
    let mut i: usize = 0;
    while i < rs.len()
        invariant
            i <= rs.len(),
            out@ =~= old(out)@ + seq!['['] + ser_pieces(receipt_pieces(rs@.take(i as int))),
        decreases rs.len() - i,
    {
        if i > 0 {
            out.append(",");
        }
        append_receipt(out, &rs[i]);
        proof {
            let part = receipt_pieces(rs@.take(i + 1));
            assert(part.last() == ser_receipt(rs@[i as int]));
            if i > 0 {
                assert(part.drop_last() =~= receipt_pieces(rs@.take(i as int)));
                assert(ser_pieces(part) == ser_pieces(part.drop_last()) + seq![','] + part.last());
            }
            assert(out@ =~= old(out)@ + seq!['['] + ser_pieces(part));
        }
        i = i + 1;
    }
    out.append("]");
    proof {
        assert(rs@.take(rs@.len() as int) =~= rs@);
        assert(out@ =~= old(out)@ + ser_array(receipt_pieces(rs@)));
    }
}

/// The serialized members of the per-account state maps.
pub open spec fn state_members(m: Seq<(String, AccountState)>) -> Seq<Seq<char>> {
    m.map_values(|p: (String, AccountState)| ser_string(p.0@) + seq![':'] + ser_account_state(p.1))
}

/// Appends one per-account state map as a JSON object.
#[verifier::loop_isolation(false)]
fn append_state_object(out: &mut String, m: &Vec<(String, AccountState)>)
    ensures
        final(out)@ == old(out)@ + ser_object(state_members(m@)),
{
    proof {
        reveal_strlit("{");
        reveal_strlit("}");
        reveal_strlit(",");
        reveal_strlit(":");
    }
    out.append("{");
    let mut i: usize = 0;
    while i < m.len()
        invariant
            i <= m.len(),
            out@ =~= old(out)@ + seq!['{'] + ser_pieces(state_members(m@.take(i as int))),
        decreases m.len() - i,
    {
        if i > 0 {
            out.append(",");
        }
        append_string(out, m[i].0.as_str());
        out.append(":");
        append_account_state_body(out, &m[i].1);
        proof {
            let part = state_members(m@.take(i + 1));
            assert(part.last() == ser_string(m@[i as int].0@) + seq![':'] + ser_account_state(
                m@[i as int].1,
            ));
            if i > 0 {
                assert(part.drop_last() =~= state_members(m@.take(i as int)));
                assert(ser_pieces(part) == ser_pieces(part.drop_last()) + seq![','] + part.last());
            }
            assert(out@ =~= old(out)@ + seq!['{'] + ser_pieces(part));
        }
        i = i + 1;
    }
    out.append("}");
    proof {
        assert(m@.take(m@.len() as int) =~= m@);
        assert(out@ =~= old(out)@ + ser_object(state_members(m@)));
    }
}

/// Appends one account state record.
fn append_account_state_body(out: &mut String, st: &AccountState)
    ensures
        final(out)@ == old(out)@ + ser_account_state(*st),
{
    out.append("{\"balance_before\":");
    append_string(out, st.balance_before.as_str());
    out.append(",\"balance_after\":");
    append_string(out, st.balance_after.as_str());
    out.append(",\"nonce_before\":");
    append_string(out, st.nonce_before.as_str());
    out.append(",\"nonce_after\":");
    append_string(out, st.nonce_after.as_str());
    out.append(",\"code\":");
    append_string(out, st.code.as_str());
    out.append("}");
    proof {
        assert(out@ =~= old(out)@ + ser_account_state(*st));
    }
}

/// The serialized form of one pair of account proofs (previous and current
/// height).
pub open spec fn ser_proof_pair(pp: (AccountProof, AccountProof)) -> Seq<char> {
    seq!['['] + ser_account_proof(pp.0) + seq![','] + ser_account_proof(pp.1) + seq![']']
}

/// The serialized members of the proof map.
pub open spec fn proof_members(m: Seq<(String, (AccountProof, AccountProof))>) -> Seq<Seq<char>> {
    m.map_values(
        |p: (String, (AccountProof, AccountProof))|
            ser_string(p.0@) + seq![':'] + ser_proof_pair(p.1),
    )
}

/// Appends one pair of account proofs as a two-element array.
fn append_proof_pair(out: &mut String, pp: &(AccountProof, AccountProof))
    ensures
        final(out)@ == old(out)@ + ser_proof_pair(*pp),
{
    proof {
        reveal_strlit("[");
        reveal_strlit("]");
        reveal_strlit(",");
    }
    out.append("[");
    append_account_proof(out, &pp.0);
    out.append(",");
    append_account_proof(out, &pp.1);
    out.append("]");
    proof {
        assert(out@ =~= old(out)@ + ser_proof_pair(*pp));
    }
}

/// Appends the proof map as a JSON object of proof pairs.
#[verifier::loop_isolation(false)]
#[verifier::rlimit(100)]
fn append_proof_object(out: &mut String, m: &Vec<(String, (AccountProof, AccountProof))>)
    ensures
        final(out)@ == old(out)@ + ser_object(proof_members(m@)),
{
    proof {
        reveal_strlit("{");
        reveal_strlit("}");
        reveal_strlit(",");
        reveal_strlit(":");
        reveal_strlit("[");
        reveal_strlit("]");
    }
    out.append("{");
    let mut i: usize = 0;
    while i < m.len()
        invariant
            i <= m.len(),
            out@ =~= old(out)@ + seq!['{'] + ser_pieces(proof_members(m@.take(i as int))),
        decreases m.len() - i,
    {
        if i > 0 {
            out.append(",");
        }
        append_string(out, m[i].0.as_str());
        out.append(":");
        append_proof_pair(out, &m[i].1);
        proof {
            let part = proof_members(m@.take(i + 1));
            assert(part.last() == ser_string(m@[i as int].0@) + seq![':'] + ser_proof_pair(
                m@[i as int].1,
            ));
            if i > 0 {
                assert(part.drop_last() =~= proof_members(m@.take(i as int)));
                assert(ser_pieces(part) == ser_pieces(part.drop_last()) + seq![','] + part.last());
            }
            assert(out@ =~= old(out)@ + seq!['{'] + ser_pieces(part));
        }
        i = i + 1;
    }
    out.append("}");
    proof {
        assert(m@.take(m@.len() as int) =~= m@);
        assert(out@ =~= old(out)@ + ser_object(proof_members(m@)));
    }
}

/// The serialized form of a whole witness: the output document, with the
/// field names of the data model.
pub open spec fn ser_witness(w: BlockWitness) -> Seq<char> {
    "{\"block_header\":"@ + ser_block(w.block_header) + ",\"prev_block_header\":"@ + ser_block(
        w.prev_block_header,
    ) + ",\"transactions\":"@ + ser_array(tx_pieces(w.transactions@)) + ",\"receipts\":"@
        + ser_array(receipt_pieces(w.receipts@)) + ",\"pre_state\":"@ + ser_object(
        state_members(w.pre_state@),
    ) + ",\"post_state\":"@ + ser_object(state_members(w.post_state@)) + ",\"merkle_proofs\":"@
        + ser_object(proof_members(w.merkle_proofs@)) + "}"@
}

/// Serializes a whole witness to the output document.
pub fn serialize_witness(w: &BlockWitness) -> (r: String)
    ensures
        r@ == ser_witness(*w),
{
    let mut out = String::new();
    out.append("{\"block_header\":");
    append_block(&mut out, &w.block_header);
    out.append(",\"prev_block_header\":");
    append_block(&mut out, &w.prev_block_header);
    out.append(",\"transactions\":");
    append_tx_array(&mut out, &w.transactions);
    out.append(",\"receipts\":");
    append_receipt_array(&mut out, &w.receipts);
    out.append(",\"pre_state\":");
    append_state_object(&mut out, &w.pre_state);
    out.append(",\"post_state\":");
    append_state_object(&mut out, &w.post_state);
    out.append(",\"merkle_proofs\":");
    append_proof_object(&mut out, &w.merkle_proofs);
    out.append("}");
    proof {
        assert(out@ =~= ser_witness(*w));
    }
    out
}


/// Byte-identical output: two witnesses of equal content serialize to one
/// and the same document text. Together with the assembler's idempotence,
/// two assemblies from the same fetched inputs print identical documents.
pub proof fn lemma_same_witness_same_text(w1: BlockWitness, w2: BlockWitness)
    requires
        crate::assembler::same_witness(w1, w2),
    ensures
        ser_witness(w1) == ser_witness(w2),
{
    let e1 = crate::assembler::entries_of(w1.pre_state@);
    let e2 = crate::assembler::entries_of(w2.pre_state@);
    assert(e1.len() == w1.pre_state@.len());
    assert(e2.len() == w2.pre_state@.len());
    assert(state_members(w1.pre_state@) =~= state_members(w2.pre_state@)) by {
        assert forall|k: int|
            0 <= k < w1.pre_state@.len() implies state_members(w1.pre_state@)[k] == state_members(
            w2.pre_state@,
        )[k] by {
            assert(e1[k] == e2[k]);
            assert(w1.pre_state@[k].0@ == e1[k].0 && w1.pre_state@[k].1 == e1[k].1);
            assert(w2.pre_state@[k].0@ == e2[k].0 && w2.pre_state@[k].1 == e2[k].1);
        }
    }
    let f1 = crate::assembler::entries_of(w1.merkle_proofs@);
    let f2 = crate::assembler::entries_of(w2.merkle_proofs@);
    assert(f1.len() == w1.merkle_proofs@.len());
    assert(f2.len() == w2.merkle_proofs@.len());
    assert(proof_members(w1.merkle_proofs@) =~= proof_members(w2.merkle_proofs@)) by {
        assert forall|k: int|
            0 <= k < w1.merkle_proofs@.len() implies proof_members(w1.merkle_proofs@)[k]
            == proof_members(w2.merkle_proofs@)[k] by {
            assert(f1[k] == f2[k]);
            assert(w1.merkle_proofs@[k].0@ == f1[k].0 && w1.merkle_proofs@[k].1 == f1[k].1);
            assert(w2.merkle_proofs@[k].0@ == f2[k].0 && w2.merkle_proofs@[k].1 == f2[k].1);
        }
    }
}

} // verus!
