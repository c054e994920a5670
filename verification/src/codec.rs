//! The on-disk format of the store: comma-delimited text with a header row.
//!
//! Each record is one line: the id in decimal, then the three text fields,
//! each quoted, with embedded quotes doubled, and a terminating newline.
//! Reading accepts quoted or plain text fields and silently skips any row
//! that does not parse, as loading is never fatal.

use vstd::prelude::*;
use vstd::string::{StrSliceExecFns, StringExecFns};
use crate::entry::{EntryV, Password};
use crate::text::{char_to_digit, chars_of, dec_digits, dec_value, digit_value, lemma_dec_digits_value, push_char, push_u32};

verus! {

/// The entry contents of a sequence of records.
pub open spec fn entries_view(s: Seq<Password>) -> Seq<EntryV> {
    s.map_values(|p: Password| p@)
}

/// `s` with every double quote doubled, as it stands inside a quoted field.
pub open spec fn esc(s: Seq<char>) -> Seq<char>
    decreases s.len(),
{
    if s.len() == 0 {
        Seq::empty()
    } else if s[0] == '"' {
        seq!['"', '"'] + esc(s.drop_first())
    } else {
        seq![s[0]] + esc(s.drop_first())
    }
}

/// A text field as written: quoted, with embedded quotes doubled.
pub open spec fn quoted(s: Seq<char>) -> Seq<char> {
    seq!['"'] + esc(s) + seq!['"']
}

/// One record as written: id, service, login, password, comma-separated,
/// ending in a newline.
pub open spec fn record_line(e: EntryV) -> Seq<char> {
    dec_digits(e.id as nat) + seq![','] + quoted(e.service) + seq![','] + quoted(e.login) + seq![
        ','
    ] + quoted(e.password) + seq!['\n']
}

/// All records, in order.
pub open spec fn records_text(entries: Seq<EntryV>) -> Seq<char>
    decreases entries.len(),
{
    if entries.len() == 0 {
        Seq::empty()
    } else {
        record_line(entries[0]) + records_text(entries.drop_first())
    }
}

/// The header row naming the four columns.
pub open spec fn header_text() -> Seq<char> {
    seq![
        '"', 'I', 'd', '"', ',', '"', 'S', 'e', 'r', 'v', 'i', 'c', 'e', '"', ',', '"', 'L', 'o',
        'g', 'i', 'n', '"', ',', '"', 'P', 'a', 's', 's', 'w', 'o', 'r', 'd', '"', '\n',
    ]
}

/// A whole persisted file: the header row, then every record.
pub open spec fn file_text(entries: Seq<EntryV>) -> Seq<char> {
    header_text() + records_text(entries)
}

proof fn lemma_esc_snoc(s: Seq<char>, c: char)
    ensures
        esc(s.push(c)) == esc(s) + (if c == '"' {
            seq!['"', '"']
        } else {
            seq![c]
        }),
    decreases s.len(),
{
    let tail: Seq<char> = if c == '"' {
        seq!['"', '"']
    } else {
        seq![c]
    };
    if s.len() == 0 {
        assert(s.push(c) =~= seq![c]);
        assert(s.push(c).drop_first() =~= Seq::<char>::empty());
        assert(esc(Seq::<char>::empty()) == Seq::<char>::empty());
        assert(esc(s.push(c)) =~= esc(s) + tail);
    } else {
        lemma_esc_snoc(s.drop_first(), c);
        assert(s.push(c).drop_first() =~= s.drop_first().push(c));
        assert(s.push(c)[0] == s[0]);
        assert(esc(s.push(c)) =~= esc(s) + tail);
    }
}

/// Appends `s` as a quoted field.
fn push_quoted(out: &mut String, s: &str)
    ensures
        final(out)@ == old(out)@ + quoted(s@),
{
    push_char(out, '"');
    let ghost base = out@;
    let n = s.unicode_len();
    let mut i: usize = 0;
    while i < n
        invariant
            n == s@.len(),
            i <= n,
            out@ == base + esc(s@.take(i as int)),
        decreases n - i,
    {
        let c = s.get_char(i);
        if c == '"' {
            push_char(out, '"');
            push_char(out, '"');
        } else {
            push_char(out, c);
        }
        proof {
            lemma_esc_snoc(s@.take(i as int), c);
            assert(s@.take(i as int + 1) =~= s@.take(i as int).push(s@[i as int]));
            if c == '"' {
                assert(out@ =~= base + esc(s@.take(i as int + 1)));
            } else {
                assert(out@ =~= base + esc(s@.take(i as int + 1)));
            }
        }
        i += 1;
    }
    assert(s@.take(n as int) =~= s@);
    push_char(out, '"');
    assert(out@ =~= old(out)@ + quoted(s@));
}

/// Appends one record as a line of the file.
fn push_record(out: &mut String, e: &Password)
    ensures
        final(out)@ == old(out)@ + record_line(e@),
{
    push_u32(out, e.id);
    push_char(out, ',');
    push_quoted(out, e.service.as_str());
    push_char(out, ',');
    push_quoted(out, e.login.as_str());
    push_char(out, ',');
    push_quoted(out, e.password.as_str());
    push_char(out, '\n');
    assert(out@ =~= old(out)@ + record_line(e@));
}

proof fn lemma_records_snoc(entries: Seq<EntryV>, e: EntryV)
    ensures
        records_text(entries.push(e)) == records_text(entries) + record_line(e),
    decreases entries.len(),
{
    if entries.len() == 0 {
        assert(entries.push(e)[0] == e);
        assert(entries.push(e).drop_first() =~= Seq::<EntryV>::empty());
        assert(records_text(Seq::<EntryV>::empty()) == Seq::<char>::empty());
        assert(records_text(entries.push(e)) =~= records_text(entries) + record_line(e));
    } else {
        lemma_records_snoc(entries.drop_first(), e);
        assert(entries.push(e).drop_first() =~= entries.drop_first().push(e));
        assert(entries.push(e)[0] == entries[0]);
        assert(records_text(entries.push(e)) =~= records_text(entries) + record_line(e));
    }
}

/// Index just past the first newline of `s`, or the whole length when `s` has
/// no newline: how much a reader discards to move to the next line.
pub open spec fn line_end(s: Seq<char>) -> nat
    decreases s.len(),
{
    if s.len() == 0 {
        0
    } else if s[0] == '\n' {
        1
    } else {
        (1 + line_end(s.drop_first())) as nat
    }
}

pub proof fn lemma_line_end_bounds(s: Seq<char>)
    ensures
        line_end(s) <= s.len(),
        s.len() > 0 ==> line_end(s) >= 1,
    decreases s.len(),
{
    if s.len() > 0 && s[0] != '\n' {
        lemma_line_end_bounds(s.drop_first());
    }
}

/// `s` without its first line, the newline included.
pub open spec fn skip_line(s: Seq<char>) -> Seq<char> {
    s.skip(line_end(s) as int)
}

/// The length of the run of decimal digits that starts `s`.
pub open spec fn digits_len(s: Seq<char>) -> nat
    decreases s.len(),
{
    if s.len() == 0 {
        0
    } else if digit_value(s[0]) is Some {
        (1 + digits_len(s.drop_first())) as nat
    } else {
        0
    }
}

/// The id field at the head of `s`: its value and how many characters it
/// takes, the comma after it included. `None` when `s` does not start with
/// digits followed by a comma, or the value does not fit an id.
pub open spec fn parse_id(s: Seq<char>) -> Option<(nat, nat)> {
    let d = digits_len(s);
    if 1 <= d && d < s.len() && s[d as int] == ',' && dec_value(s.take(d as int)) <= u32::MAX
        as nat {
        Some((dec_value(s.take(d as int)), (d + 1) as nat))
    } else {
        None
    }
}

/// The rest of a quoted field, after its opening quote: the field text and
/// how many characters it takes, the closing quote included. A doubled quote
/// stands for one quote in the text; `None` when the field never closes.
pub open spec fn parse_qbody(s: Seq<char>) -> Option<(Seq<char>, nat)>
    decreases s.len(),
{
    if s.len() == 0 {
        None
    } else if s[0] == '"' {
        if s.len() >= 2 && s[1] == '"' {
            match parse_qbody(s.skip(2)) {
                Some(r) => Some((seq!['"'] + r.0, (r.1 + 2) as nat)),
                None => None,
            }
        } else {
            Some((Seq::empty(), 1))
        }
    } else {
        match parse_qbody(s.drop_first()) {
            Some(r) => Some((seq![s[0]] + r.0, (r.1 + 1) as nat)),
            None => None,
        }
    }
}

/// The length of a plain, unquoted field: the characters before the first
/// comma or newline.
pub open spec fn plain_len(s: Seq<char>) -> nat
    decreases s.len(),
{
    if s.len() == 0 {
        0
    } else if s[0] == ',' || s[0] == '\n' {
        0
    } else {
        (1 + plain_len(s.drop_first())) as nat
    }
}

/// A text field at the head of `s`: quoted when it opens with a quote, plain
/// otherwise. Yields the field text and how many characters it takes, the
/// terminator (comma or newline) not included; `None` when no terminator
/// follows a plain field or a quoted field never closes.
pub open spec fn parse_field(s: Seq<char>) -> Option<(Seq<char>, nat)> {
    if s.len() > 0 && s[0] == '"' {
        match parse_qbody(s.drop_first()) {
            Some(r) => Some((r.0, (r.1 + 1) as nat)),
            None => None,
        }
    } else {
        let d = plain_len(s);
        if d < s.len() {
            Some((s.take(d as int), d))
        } else {
            None
        }
    }
}

/// One record at the head of `s`: the entry and how many characters it takes,
/// the final newline included. `None` when the head of `s` is not a record.
pub open spec fn parse_record(s: Seq<char>) -> Option<(EntryV, nat)> {
    match parse_id(s) {
        None => None,
        Some((id, k0)) => match parse_field(s.skip(k0 as int)) {
            None => None,
            Some((service, k1)) => {
                let p1 = k0 + k1;
                if p1 < s.len() && s[p1 as int] == ',' {
                    match parse_field(s.skip(p1 as int + 1)) {
                        None => None,
                        Some((login, k2)) => {
                            let p2 = p1 + 1 + k2;
                            if p2 < s.len() && s[p2 as int] == ',' {
                                match parse_field(s.skip(p2 as int + 1)) {
                                    None => None,
                                    Some((password, k3)) => {
                                        let p3 = p2 + 1 + k3;
                                        if p3 < s.len() && s[p3 as int] == '\n' {
                                            Some(
                                                (
                                                    EntryV {
                                                        id: id as u32,
                                                        service,
                                                        login,
                                                        password,
                                                    },
                                                    (p3 + 1) as nat,
                                                ),
                                            )
                                        } else {
                                            None
                                        }
                                    },
                                }
                            } else {
                                None
                            }
                        },
                    }
                } else {
                    None
                }
            },
        },
    }
}

/// Every record of `s`, in order. A line that is not a record is skipped, as
/// spec'd: a row that fails to parse is silently dropped, never fatal.
pub open spec fn parse_records(s: Seq<char>) -> Seq<EntryV>
    decreases s.len(),
{
    if s.len() == 0 {
        Seq::empty()
    } else {
        match parse_record(s) {
            Some(r) => {
                if 1 <= r.1 <= s.len() {
                    seq![r.0] + parse_records(s.skip(r.1 as int))
                } else {
                    proof {
                        lemma_line_end_bounds(s);
                    }
                    parse_records(skip_line(s))
                }
            },
            None => {
                proof {
                    lemma_line_end_bounds(s);
                }
                parse_records(skip_line(s))
            },
        }
    }
}

/// A whole persisted file read back: the header line is dropped, then every
/// record is taken in order. An empty or missing file yields no entries.
pub open spec fn parse_file(s: Seq<char>) -> Seq<EntryV> {
    parse_records(skip_line(s))
}

proof fn lemma_digits_len_of(s: Seq<char>, k: nat)
    requires
        k <= s.len(),
        forall|i: int| 0 <= i < k ==> #[trigger] digit_value(s[i]) is Some,
        k == s.len() || digit_value(s[k as int]) is None,
    ensures
        digits_len(s) == k,
    decreases k,
{
    if k == 0 {
    } else {
        assert(digit_value(s[0]) is Some);
        lemma_digits_len_of(s.drop_first(), (k - 1) as nat);
    }
}

proof fn lemma_plain_len_of(s: Seq<char>, k: nat)
    requires
        k <= s.len(),
        forall|i: int| 0 <= i < k ==> #[trigger] s[i] != ',' && s[i] != '\n',
        k == s.len() || s[k as int] == ',' || s[k as int] == '\n',
    ensures
        plain_len(s) == k,
    decreases k,
{
    if k == 0 {
    } else {
        lemma_plain_len_of(s.drop_first(), (k - 1) as nat);
    }
}

proof fn lemma_line_end_of(s: Seq<char>, k: nat)
    requires
        k <= s.len(),
        forall|i: int| 0 <= i < k ==> #[trigger] s[i] != '\n',
        k == s.len() || s[k as int] == '\n',
    ensures
        line_end(s) == if k == s.len() {
            k
        } else {
            k + 1
        },
    decreases k,
{
    if k == 0 {
    } else {
        lemma_line_end_of(s.drop_first(), (k - 1) as nat);
    }
}

/// Growing an all-digit prefix never shrinks its value.
proof fn lemma_dec_value_mono(s: Seq<char>, m: nat, k: nat)
    requires
        m <= k <= s.len(),
    ensures
        dec_value(s.take(m as int)) <= dec_value(s.take(k as int)),
    decreases k - m,
{
    if m < k {
        lemma_dec_value_mono(s, m, (k - 1) as nat);
        assert(s.take(k as int).drop_last() =~= s.take(k as int - 1));
        assert(dec_value(s.take(k as int)) == dec_value(s.take(k as int - 1)) * 10
            + digit_value(s[k as int - 1]).unwrap_or(0));
    }
}

/// Reads the id field at `pos`: the digit run, its value and the comma.
fn scan_id(cs: &Vec<char>, pos: usize) -> (r: Option<(u32, usize)>)
    requires
        pos <= cs@.len(),
    ensures
        match r {
            Some(v) => {
                &&& parse_id(cs@.skip(pos as int)) == Some((v.0 as nat, v.1 as nat))
                &&& 2 <= v.1
                &&& pos + v.1 <= cs@.len()
            },
            None => parse_id(cs@.skip(pos as int)) is None,
        },
{
    let ghost s = cs@.skip(pos as int);
    let mut j: usize = pos;
    while j < cs.len() && char_to_digit(cs[j]).is_some()
        invariant
            pos <= j <= cs@.len(),
            forall|i: int| 0 <= i < j - pos ==> #[trigger] digit_value(s[i]) is Some,
            s == cs@.skip(pos as int),
        decreases cs@.len() - j,
    {
        assert(s[j - pos] == cs@[j as int]);
        j += 1;
    }
    proof {
        if j < cs@.len() {
            assert(s[j - pos] == cs@[j as int]);
        }
        lemma_digits_len_of(s, (j - pos) as nat);
    }
    let d = j - pos;
    if d == 0 {
        return None;
    }
    if j >= cs.len() || cs[j] != ',' {
        proof {
            if j < cs@.len() {
                assert(s[d as int] == cs@[j as int]);
            }
        }
        return None;
    }
    assert(s[d as int] == cs@[j as int]);
    // The digit run ends in a comma; now accumulate the value, watching for
    // an id too large to store.
    let mut val: u32 = 0;
    let mut m: usize = 0;
    while m < d
        invariant
            m <= d,
            pos + d < cs@.len(),
            cs@.len() <= usize::MAX,
            d == digits_len(s),
            d <= s.len(),
            s == cs@.skip(pos as int),
            forall|i: int| 0 <= i < d ==> #[trigger] digit_value(s[i]) is Some,
            val == dec_value(s.take(m as int)),
        decreases d - m,
    {
        assert(s[m as int] == cs@[pos + m]);
        let dig = match char_to_digit(cs[pos + m]) {
            Some(x) => x,
            None => {
                proof {
                    assert(digit_value(s[m as int]) is Some);
                }
                // unreachable: the run was all digits
                return None;
            },
        };
        proof {
            assert(s.take(m as int + 1).drop_last() =~= s.take(m as int));
            assert(s.take(m as int + 1).last() == s[m as int]);
        }
        if val > (u32::MAX - dig) / 10 {
            proof {
                assert(dec_value(s.take(m as int + 1)) == dec_value(s.take(m as int)) * 10
                    + dig);
                assert(dec_value(s.take(m as int + 1)) > u32::MAX as nat) by (nonlinear_arith)
                    requires
                        dec_value(s.take(m as int + 1)) == dec_value(s.take(m as int)) * 10 + dig,
                        dec_value(s.take(m as int)) == val,
                        val > (u32::MAX - dig) / 10,
                        dig <= 9,
                ;
                lemma_dec_value_mono(s, (m + 1) as nat, d as nat);
            }
            return None;
        }
        proof {
            assert(val * 10 + dig <= u32::MAX) by (nonlinear_arith)
                requires
                    val <= (u32::MAX - dig) / 10,
                    dig <= 9,
            ;
        }
        val = val * 10 + dig;
        m += 1;
    }
    assert(val == dec_value(s.take(d as int)));
    Some((val, d + 1))
}

/// Reads a text field at `pos`: quoted when it opens with a quote, plain
/// otherwise.
fn scan_field(cs: &Vec<char>, pos: usize) -> (r: Option<(String, usize)>)
    requires
        pos <= cs@.len(),
    ensures
        match r {
            Some(v) => {
                &&& parse_field(cs@.skip(pos as int)) == Some((v.0@, v.1 as nat))
                &&& pos + v.1 <= cs@.len()
            },
            None => parse_field(cs@.skip(pos as int)) is None,
        },
{
    let ghost s = cs@.skip(pos as int);
    if pos < cs.len() && cs[pos] == '"' {
        assert(s[0] == '"');
        let ghost s0 = cs@.skip(pos as int + 1);
        assert(s.drop_first() =~= s0);
        let mut acc = String::new();
        let mut j: usize = pos + 1;
        loop
            invariant
                pos + 1 <= j <= cs@.len(),
                cs@.len() <= usize::MAX,
                s == cs@.skip(pos as int),
                s0 == cs@.skip(pos as int + 1),
                s.len() > 0 && s[0] == '"' && s.drop_first() == s0,
                ({
                    let cur = parse_qbody(cs@.skip(j as int));
                    let whole = parse_qbody(s0);
                    match cur {
                        Some(rr) => whole == Some((acc@ + rr.0, ((j - pos - 1) + rr.1) as nat)),
                        None => whole is None,
                    }
                }),
            decreases cs@.len() - j,
        {
            if j >= cs.len() {
                // an unterminated quoted field: the row cannot parse
                assert(cs@.skip(j as int) =~= Seq::<char>::empty());
                assert(parse_qbody(s0) is None);
                return None;
            }
            let c = cs[j];
            assert(cs@.skip(j as int)[0] == c);
            if c == '"' {
                if j + 1 < cs.len() && cs[j + 1] == '"' {
                    // a doubled quote stands for one quote in the text
                    let ghost acc0 = acc@;
                    push_char(&mut acc, '"');
                    proof {
                        let sj = cs@.skip(j as int);
                        assert(sj[1] == cs@[j as int + 1]);
                        assert(sj.len() >= 2);
                        assert(sj.skip(2) =~= cs@.skip(j as int + 2));
                        if parse_qbody(cs@.skip(j as int + 2)) is Some {
                            let rr2 = parse_qbody(cs@.skip(j as int + 2)).unwrap();
                            assert(parse_qbody(sj) == Some(
                                (seq!['"'] + rr2.0, (rr2.1 + 2) as nat),
                            ));
                            assert(acc0.push('"') + rr2.0 =~= acc0 + (seq!['"'] + rr2.0));
                        }
                    }
                    j += 2;
                } else {
                    // the closing quote
                    proof {
                        let sj = cs@.skip(j as int);
                        if j + 1 < cs@.len() {
                            assert(sj[1] == cs@[j as int + 1]);
                        }
                        assert(!(sj.len() >= 2 && sj[1] == '"'));
                        assert(parse_qbody(sj) == Some((Seq::<char>::empty(), 1nat)));
                        assert(acc@ + Seq::<char>::empty() =~= acc@);
                        assert(parse_qbody(s0) == Some((acc@, (j - pos) as nat)));
                        assert(parse_field(s) == Some((acc@, (j - pos + 1) as nat)));
                    }
                    return Some((acc, j + 1 - pos));
                }
            } else {
                let ghost acc0 = acc@;
                push_char(&mut acc, c);
                proof {
                    let sj = cs@.skip(j as int);
                    assert(sj.drop_first() =~= cs@.skip(j as int + 1));
                    if parse_qbody(cs@.skip(j as int + 1)) is Some {
                        let rr2 = parse_qbody(cs@.skip(j as int + 1)).unwrap();
                        assert(parse_qbody(sj) == Some((seq![c] + rr2.0, (rr2.1 + 1) as nat)));
                        assert(acc0.push(c) + rr2.0 =~= acc0 + (seq![c] + rr2.0));
                    }
                }
                j += 1;
            }
        }
    } else {
        // a plain field runs to the first comma or newline
        let mut acc = String::new();
        let mut j: usize = pos;
        while j < cs.len() && cs[j] != ',' && cs[j] != '\n'
            invariant
                pos <= j <= cs@.len(),
                s == cs@.skip(pos as int),
                forall|i: int| 0 <= i < j - pos ==> #[trigger] s[i] != ',' && s[i] != '\n',
                acc@ == s.take((j - pos) as int),
            decreases cs@.len() - j,
        {
            assert(s[j - pos] == cs@[j as int]);
            push_char(&mut acc, cs[j]);
            assert(acc@ =~= s.take((j + 1 - pos) as int));
            j += 1;
        }
        proof {
            if j < cs@.len() {
                assert(s[j - pos] == cs@[j as int]);
            }
            lemma_plain_len_of(s, (j - pos) as nat);
        }
        if j >= cs.len() {
            // no terminator before the end of the file: the row cannot parse
            return None;
        }
        Some((acc, j - pos))
    }
}

proof fn lemma_qbody_of(t: Seq<char>, rest: Seq<char>)
    requires
        rest.len() == 0 || rest[0] != '"',
    ensures
        parse_qbody(esc(t) + seq!['"'] + rest) == Some((t, (esc(t).len() + 1) as nat)),
    decreases t.len(),
{
    let s = esc(t) + seq!['"'] + rest;
    if t.len() == 0 {
        assert(esc(t) =~= Seq::<char>::empty());
        assert(s =~= seq!['"'] + rest);
        assert(s[0] == '"');
        if rest.len() > 0 {
            assert(s[1] == rest[0]);
        }
        assert(parse_qbody(s) == Some((Seq::<char>::empty(), 1nat)));
        assert(t =~= Seq::<char>::empty());
    } else if t[0] == '"' {
        lemma_qbody_of(t.drop_first(), rest);
        assert(esc(t) =~= seq!['"', '"'] + esc(t.drop_first()));
        assert(s[0] == '"');
        assert(s[1] == '"');
        assert(s.len() >= 2);
        assert(s.skip(2) =~= esc(t.drop_first()) + seq!['"'] + rest);
        assert(seq!['"'] + t.drop_first() =~= t);
        assert(parse_qbody(s) == Some((t, (esc(t).len() + 1) as nat)));
    } else {
        lemma_qbody_of(t.drop_first(), rest);
        assert(esc(t) =~= seq![t[0]] + esc(t.drop_first()));
        assert(s[0] == t[0]);
        assert(s.drop_first() =~= esc(t.drop_first()) + seq!['"'] + rest);
        assert(seq![t[0]] + t.drop_first() =~= t);
        assert(parse_qbody(s) == Some((t, (esc(t).len() + 1) as nat)));
    }
}

proof fn lemma_field_of(t: Seq<char>, rest: Seq<char>)
    requires
        rest.len() > 0,
        rest[0] != '"',
    ensures
        parse_field(quoted(t) + rest) == Some((t, (esc(t).len() + 2) as nat)),
{
    let s = quoted(t) + rest;
    assert(s[0] == '"');
    assert(s.drop_first() =~= esc(t) + seq!['"'] + rest);
    lemma_qbody_of(t, rest);
}

/// A record line followed by anything reads back as exactly its entry,
/// consuming exactly the line.
#[verifier::rlimit(100)]
proof fn lemma_record_of(e: EntryV, rest: Seq<char>)
    ensures
        parse_record(record_line(e) + rest) == Some((e, record_line(e).len() as nat)),
        record_line(e).len() >= 1,
{
    let s = record_line(e) + rest;
    let dd = dec_digits(e.id as nat);
    let d = dd.len();
    lemma_dec_digits_value(e.id as nat);
    let t1 = seq![','] + quoted(e.service) + seq![','] + quoted(e.login) + seq![','] + quoted(
        e.password,
    ) + seq!['\n'] + rest;
    assert(s =~= dd + t1);
    assert forall|i: int| 0 <= i < d implies #[trigger] digit_value(s[i]) is Some by {
        assert(s[i] == dd[i]);
    }
    assert(s[d as int] == ',');
    assert(digit_value(',') is None);
    lemma_digits_len_of(s, d as nat);
    assert(s.take(d as int) =~= dd);
    assert(parse_id(s) == Some((e.id as nat, (d + 1) as nat)));
    let k0: int = d as int + 1;
    // the service field
    let t2 = seq![','] + quoted(e.login) + seq![','] + quoted(e.password) + seq!['\n'] + rest;
    assert(s.skip(k0) =~= quoted(e.service) + t2);
    lemma_field_of(e.service, t2);
    let k1: int = esc(e.service).len() as int + 2;
    let p1: int = k0 + k1;
    assert(s[p1] == s.skip(k0)[k1]);
    assert(s.skip(k0)[k1] == t2[0]);
    assert(s[p1] == ',');
    // the login field
    let t3 = seq![','] + quoted(e.password) + seq!['\n'] + rest;
    assert(s.skip(p1 + 1) =~= quoted(e.login) + t3);
    lemma_field_of(e.login, t3);
    let k2: int = esc(e.login).len() as int + 2;
    let p2: int = p1 + 1 + k2;
    assert(s[p2] == s.skip(p1 + 1)[k2]);
    assert(s.skip(p1 + 1)[k2] == t3[0]);
    assert(s[p2] == ',');
    // the password field
    let t4 = seq!['\n'] + rest;
    assert(s.skip(p2 + 1) =~= quoted(e.password) + t4);
    lemma_field_of(e.password, t4);
    let k3: int = esc(e.password).len() as int + 2;
    let p3: int = p2 + 1 + k3;
    assert(s[p3] == s.skip(p2 + 1)[k3]);
    assert(s.skip(p2 + 1)[k3] == t4[0]);
    assert(s[p3] == '\n');
    assert(p3 + 1 == record_line(e).len());
    assert((e.id as nat) as u32 == e.id);
    assert(parse_record(s) == Some((e, record_line(e).len() as nat)));
}

/// Rendered records followed by nothing read back as exactly those entries.
#[verifier::rlimit(100)]
proof fn lemma_records_of(entries: Seq<EntryV>)
    ensures
        parse_records(records_text(entries)) == entries,
    decreases entries.len(),
{
    if entries.len() == 0 {
        assert(records_text(entries).len() == 0);
        assert(parse_records(records_text(entries)) =~= entries);
    } else {
        let e = entries[0];
        let tail = entries.drop_first();
        let s = records_text(entries);
        assert(s == record_line(e) + records_text(tail));
        lemma_record_of(e, records_text(tail));
        let k = record_line(e).len();
        assert(s.len() == k + records_text(tail).len());
        assert(s.len() > 0);
        assert(s.skip(k as int) =~= records_text(tail));
        lemma_records_of(tail);
        assert(parse_records(s) =~= seq![e] + tail);
        assert(seq![e] + tail =~= entries);
    }
}

/// Round trip: the file rendered for a sequence of entries reads back as
/// exactly those entries, field for field and id for id.
pub proof fn lemma_file_round_trip(entries: Seq<EntryV>)
    ensures
        parse_file(file_text(entries)) == entries,
{
    let h = header_text();
    let s = file_text(entries);
    assert forall|i: int| 0 <= i < 33 implies #[trigger] s[i] != '\n' by {
        assert(s[i] == h[i]);
    }
    assert(s[33] == h[33]);
    assert(s[33] == '\n');
    lemma_line_end_of(s, 33);
    assert(line_end(s) == 34);
    assert(skip_line(s) =~= records_text(entries));
    lemma_records_of(entries);
}

/// Reads one record at `pos`.
fn scan_record(cs: &Vec<char>, pos: usize) -> (r: Option<(Password, usize)>)
    requires
        pos <= cs@.len(),
    ensures
        match r {
            Some(v) => {
                &&& parse_record(cs@.skip(pos as int)) == Some((v.0@, v.1 as nat))
                &&& 1 <= v.1
                &&& pos + v.1 <= cs@.len()
            },
            None => parse_record(cs@.skip(pos as int)) is None,
        },
{
    let ghost s = cs@.skip(pos as int);
    let n = cs.len();
    let (id, k0) = match scan_id(cs, pos) {
        Some(v) => v,
        None => {
            return None;
        },
    };
    proof {
        assert(cs@.skip(pos as int + k0 as int) =~= s.skip(k0 as int));
    }
    let (service, k1) = match scan_field(cs, pos + k0) {
        Some(v) => v,
        None => {
            return None;
        },
    };
    let p1 = k0 + k1;
    if pos + p1 >= n || cs[pos + p1] != ',' {
        proof {
            if pos + p1 < cs@.len() {
                assert(s[p1 as int] == cs@[pos + p1]);
            }
        }
        return None;
    }
    assert(s[p1 as int] == cs@[pos + p1]);
    proof {
        assert(cs@.skip(pos + p1 + 1) =~= s.skip(p1 as int + 1));
    }
    let (login, k2) = match scan_field(cs, pos + p1 + 1) {
        Some(v) => v,
        None => {
            return None;
        },
    };
    let p2 = p1 + 1 + k2;
    if pos + p2 >= n || cs[pos + p2] != ',' {
        proof {
            if pos + p2 < cs@.len() {
                assert(s[p2 as int] == cs@[pos + p2]);
            }
        }
        return None;
    }
    assert(s[p2 as int] == cs@[pos + p2]);
    proof {
        assert(cs@.skip(pos + p2 + 1) =~= s.skip(p2 as int + 1));
    }
    let (password, k3) = match scan_field(cs, pos + p2 + 1) {
        Some(v) => v,
        None => {
            return None;
        },
    };
    let p3 = p2 + 1 + k3;
    if pos + p3 >= n || cs[pos + p3] != '\n' {
        proof {
            if pos + p3 < cs@.len() {
                assert(s[p3 as int] == cs@[pos + p3]);
            }
        }
        return None;
    }
    assert(s[p3 as int] == cs@[pos + p3]);
    Some((Password { id, service, login, password }, p3 + 1))
}

/// Every record of `text`, the header line dropped; a row that does not parse
/// is silently skipped. This is how the store reads a persisted file back.
pub fn parse_file_str(text: &str) -> (r: Vec<Password>)
    ensures
        entries_view(r@) == parse_file(text@),
{
    let cs = chars_of(text);
    let n = cs.len();
    // drop the header line
    let mut pos: usize = 0;
    while pos < n && cs[pos] != '\n'
        invariant
            pos <= n,
            n == cs@.len(),
            forall|i: int| 0 <= i < pos ==> #[trigger] cs@[i] != '\n',
        decreases n - pos,
    {
        pos += 1;
    }
    proof {
        lemma_line_end_of(cs@, pos as nat);
    }
    if pos < n {
        pos += 1;
    }
    assert(cs@.skip(pos as int) =~= skip_line(cs@));
    let mut out: Vec<Password> = Vec::new();
    while pos < n
        invariant
            pos <= n,
            n == cs@.len(),
            cs@ == text@,
            entries_view(out@) + parse_records(cs@.skip(pos as int)) == parse_file(text@),
        decreases n - pos,
    {
        match scan_record(&cs, pos) {
            Some(v) => {
                let (p, k) = v;
                proof {
                    assert(cs@.skip(pos as int).skip(k as int) =~= cs@.skip(pos + k));
                    assert(entries_view(out@.push(p)) =~= entries_view(out@) + seq![p@]);
                    assert(entries_view(out@) + (seq![p@] + parse_records(cs@.skip(pos + k)))
                        =~= (entries_view(out@) + seq![p@]) + parse_records(cs@.skip(pos + k)));
                }
                out.push(p);
                pos += k;
            },
            None => {
                // skip the line that would not parse
                let start = pos;
                while pos < n && cs[pos] != '\n'
                    invariant
                        start <= pos <= n,
                        n == cs@.len(),
                        forall|i: int| start <= i < pos ==> #[trigger] cs@[i] != '\n',
                    decreases n - pos,
                {
                    pos += 1;
                }
                proof {
                    let sub = cs@.skip(start as int);
                    assert(forall|i: int|
                        0 <= i < pos - start ==> #[trigger] sub[i] == cs@[start + i]);
                    if pos < cs@.len() {
                        assert(sub[pos - start] == cs@[pos as int]);
                    }
                    lemma_line_end_of(sub, (pos - start) as nat);
                }
                if pos < n {
                    pos += 1;
                }
                proof {
                    let sub = cs@.skip(start as int);
                    assert(skip_line(sub) =~= cs@.skip(pos as int));
                    assert(parse_records(sub) == parse_records(cs@.skip(pos as int)));
                }
            },
        }
    }
    proof {
        assert(cs@.skip(n as int) =~= Seq::<char>::empty());
        assert(parse_records(Seq::<char>::empty()) == Seq::<EntryV>::empty());
        assert(entries_view(out@) + Seq::<EntryV>::empty() =~= entries_view(out@));
    }
    out
}

/// The whole file for `entries`, exactly as it is persisted.
pub fn render_file(entries: &Vec<Password>) -> (r: String)
    ensures
        r@ == file_text(entries_view(entries@)),
{
    let mut out = String::new();
    out.append("\"Id\",\"Service\",\"Login\",\"Password\"\n");
    proof {
        reveal_strlit("\"Id\",\"Service\",\"Login\",\"Password\"\n");
        assert(out@ =~= header_text());
    }
    let mut i: usize = 0;
    while i < entries.len()
        invariant
            i <= entries@.len(),
            out@ == header_text() + records_text(entries_view(entries@.take(i as int))),
        decreases entries@.len() - i,
    {
        push_record(&mut out, &entries[i]);
        proof {
            lemma_records_snoc(entries_view(entries@.take(i as int)), entries@[i as int]@);
            assert(entries_view(entries@.take(i as int + 1)) =~= entries_view(
                entries@.take(i as int),
            ).push(entries@[i as int]@));
            assert(out@ =~= header_text() + records_text(
                entries_view(entries@.take(i as int + 1)),
            ));
        }
        i += 1;
    }
    assert(entries@.take(entries@.len() as int) =~= entries@);
    assert(out@ =~= file_text(entries_view(entries@)));
    out
}

} // verus!
