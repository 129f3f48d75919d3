//! The service's wire format: a hand-rolled JSON writer for the two response
//! bodies (the settings document and the fetched records), together with a
//! specification-level parser used to state that the settings document
//! round-trips exactly.

use vstd::prelude::*;

verus! {

// ---------------------------------------------------------------------------
// Decimal digits
// ---------------------------------------------------------------------------

pub open spec fn digit_char(d: nat) -> char {
    if d == 0 {
        '0'
    } else if d == 1 {
        '1'
    } else if d == 2 {
        '2'
    } else if d == 3 {
        '3'
    } else if d == 4 {
        '4'
    } else if d == 5 {
        '5'
    } else if d == 6 {
        '6'
    } else if d == 7 {
        '7'
    } else if d == 8 {
        '8'
    } else {
        '9'
    }
}

pub open spec fn is_digit_char(c: char) -> bool {
    c == '0' || c == '1' || c == '2' || c == '3' || c == '4' || c == '5' || c == '6' || c == '7'
        || c == '8' || c == '9'
}

pub open spec fn char_digit(c: char) -> nat {
    if c == '0' {
        0
    } else if c == '1' {
        1
    } else if c == '2' {
        2
    } else if c == '3' {
        3
    } else if c == '4' {
        4
    } else if c == '5' {
        5
    } else if c == '6' {
        6
    } else if c == '7' {
        7
    } else if c == '8' {
        8
    } else {
        9
    }
}

/// Decimal digits of `n`, most significant first, without leading zeros.
pub open spec fn dec_digits(n: nat) -> Seq<char>
    decreases n,
{
    if n < 10 {
        seq![digit_char(n)]
    } else {
        dec_digits(n / 10).push(digit_char(n % 10))
    }
}

fn digit_str(d: u8) -> (r: &'static str)
    requires
        d < 10,
    ensures
        r@ == seq![digit_char(d as nat)],
{
    if d == 0 {
        proof {
            reveal_strlit("0");
            assert("0"@ =~= seq![digit_char(d as nat)]);
        }
        "0"
    } else if d == 1 {
        proof {
            reveal_strlit("1");
            assert("1"@ =~= seq![digit_char(d as nat)]);
        }
        "1"
    } else if d == 2 {
        proof {
            reveal_strlit("2");
            assert("2"@ =~= seq![digit_char(d as nat)]);
        }
        "2"
    } else if d == 3 {
        proof {
            reveal_strlit("3");
            assert("3"@ =~= seq![digit_char(d as nat)]);
        }
        "3"
    } else if d == 4 {
        proof {
            reveal_strlit("4");
            assert("4"@ =~= seq![digit_char(d as nat)]);
        }
        "4"
    } else if d == 5 {
        proof {
            reveal_strlit("5");
            assert("5"@ =~= seq![digit_char(d as nat)]);
        }
        "5"
    } else if d == 6 {
        proof {
            reveal_strlit("6");
            assert("6"@ =~= seq![digit_char(d as nat)]);
        }
        "6"
    } else if d == 7 {
        proof {
            reveal_strlit("7");
            assert("7"@ =~= seq![digit_char(d as nat)]);
        }
        "7"
    } else if d == 8 {
        proof {
            reveal_strlit("8");
            assert("8"@ =~= seq![digit_char(d as nat)]);
        }
        "8"
    } else {
        proof {
            reveal_strlit("9");
            assert("9"@ =~= seq![digit_char(d as nat)]);
        }
        "9"
    }
}

/// Renders `n` in decimal, matching `dec_digits`.
pub fn u32_to_string(n: u32) -> (r: String)
    ensures
        r@ == dec_digits(n as nat),
    decreases n,
{
    if n < 10 {
        digit_str(n as u8).to_owned()
    } else {
        let mut r = u32_to_string(n / 10);
        r.append(digit_str((n % 10) as u8));
        proof {
            assert(r@ =~= dec_digits(n as nat));
        }
        r
    }
}

/// Renders a signed value in decimal.
pub open spec fn int_digits(n: int) -> Seq<char> {
    if n < 0 {
        seq!['-'] + dec_digits((-n) as nat)
    } else {
        dec_digits(n as nat)
    }
}

pub fn i32_to_string(x: i32) -> (r: String)
    ensures
        r@ == int_digits(x as int),
{
    if x >= 0 {
        u32_to_string(x as u32)
    } else {
        let mag = (-(x as i64)) as u32;
        let mut r = "-".to_owned();
        let m = u32_to_string(mag);
        r.append(m.as_str());
        proof {
            reveal_strlit("-");
            assert("-"@ =~= seq!['-']);
            assert(r@ =~= int_digits(x as int));
        }
        r
    }
}

// ---------------------------------------------------------------------------
// String escaping
// ---------------------------------------------------------------------------

/// How a single character appears inside a JSON string body.
pub open spec fn escaped_char(c: char) -> Seq<char> {
    if c == '"' {
        seq!['\\', '"']
    } else if c == '\\' {
        seq!['\\', '\\']
    } else if c == '\n' {
        seq!['\\', 'n']
    } else if c == '\r' {
        seq!['\\', 'r']
    } else if c == '\t' {
        seq!['\\', 't']
    } else {
        seq![c]
    }
}

/// JSON string-body encoding of `s`: quote, backslash, newline, carriage
/// return and tab are escaped; every other character stands as itself.
pub open spec fn escape_seq(s: Seq<char>) -> Seq<char>
    decreases s.len(),
{
    if s.len() == 0 {
        Seq::empty()
    } else {
        escaped_char(s[0]) + escape_seq(s.skip(1))
    }
}

/// Escapes `s` for use as a JSON string body.
pub fn escape_json(s: &str) -> (r: String)
    ensures
        r@ == escape_seq(s@),
{
    let n = s.unicode_len();
    let mut r = String::new();
    let mut i: usize = 0;
    proof {
        assert(s@.skip(0) =~= s@);
        assert(r@ + escape_seq(s@.skip(0)) =~= escape_seq(s@));
    }
    while i < n
        invariant
            i <= n,
            n == s@.len(),
            r@ + escape_seq(s@.skip(i as int)) == escape_seq(s@),
        decreases n - i,
    {
        let c = s.get_char(i);
        proof {
            assert(s@.skip(i as int)[0] == c);
            assert(s@.skip(i as int).skip(1) =~= s@.skip(i as int + 1));
        }
        if c == '"' {
            r.append("\\\"");
            proof {
                reveal_strlit("\\\"");
                assert("\\\""@ =~= escaped_char(c));
            }
        } else if c == '\\' {
            r.append("\\\\");
            proof {
                reveal_strlit("\\\\");
                assert("\\\\"@ =~= escaped_char(c));
            }
        } else if c == '\n' {
            r.append("\\n");
            proof {
                reveal_strlit("\\n");
                assert("\\n"@ =~= escaped_char(c));
            }
        } else if c == '\r' {
            r.append("\\r");
            proof {
                reveal_strlit("\\r");
                assert("\\r"@ =~= escaped_char(c));
            }
        } else if c == '\t' {
            r.append("\\t");
            proof {
                reveal_strlit("\\t");
                assert("\\t"@ =~= escaped_char(c));
            }
        } else {
            let piece = s.substring_char(i, i + 1);
            r.append(piece);
            proof {
                assert(piece@ =~= escaped_char(c));
            }
        }
        proof {
            assert(r@ + escape_seq(s@.skip(i as int + 1)) =~= escape_seq(s@));
        }
        i += 1;
    }
    proof {
        assert(s@.skip(n as int) =~= Seq::<char>::empty());
        assert(r@ + Seq::<char>::empty() =~= r@);
    }
    r
}

// ---------------------------------------------------------------------------
// The two response documents
// ---------------------------------------------------------------------------

/// The settings document: `{"host":"…","port":…,"db_url":"…"}`.
pub open spec fn settings_json(host: Seq<char>, port: u16, db_url: Seq<char>) -> Seq<char> {
    "{\"host\":\""@ + escape_seq(host) + "\",\"port\":"@ + dec_digits(port as nat)
        + ",\"db_url\":\""@ + escape_seq(db_url) + "\"}"@
}

/// Renders the settings document.
pub fn render_settings(host: &str, port: u16, db_url: &str) -> (r: String)
    ensures
        r@ == settings_json(host@, port, db_url@),
{
    let mut r = "{\"host\":\"".to_owned();
    let h = escape_json(host);
    r.append(h.as_str());
    r.append("\",\"port\":");
    let p = u32_to_string(port as u32);
    r.append(p.as_str());
    r.append(",\"db_url\":\"");
    let d = escape_json(db_url);
    r.append(d.as_str());
    r.append("\"}");
    proof {
        assert(r@ =~= settings_json(host@, port, db_url@));
    }
    r
}

/// The records inside the data document, comma separated.
pub open spec fn int_list(v: Seq<i32>) -> Seq<char>
    decreases v.len(),
{
    if v.len() == 0 {
        Seq::empty()
    } else if v.len() == 1 {
        int_digits(v[0] as int)
    } else {
        int_list(v.drop_last()) + seq![','] + int_digits(v.last() as int)
    }
}

/// The success body of the fetch-records operation: `{"data":[…]}`.
pub open spec fn data_json(v: Seq<i32>) -> Seq<char> {
    "{\"data\":["@ + int_list(v) + "]}"@
}

/// Renders the data document.
pub fn render_records(v: &Vec<i32>) -> (r: String)
    ensures
        r@ == data_json(v@),
{
    let mut r = "{\"data\":[".to_owned();
    let mut i: usize = 0;
    while i < v.len()
        invariant
            i <= v@.len(),
            r@ == "{\"data\":["@ + int_list(v@.take(i as int)),
        decreases v@.len() - i,
    {
        if i > 0 {
            r.append(",");
        }
        let piece = i32_to_string(v[i]);
        r.append(piece.as_str());
        proof {
            reveal_strlit(",");
            assert(v@.take(i as int + 1).drop_last() =~= v@.take(i as int));
            assert(v@.take(i as int + 1).last() == v@[i as int]);
            assert(r@ =~= "{\"data\":["@ + int_list(v@.take(i as int + 1)));
        }
        i += 1;
    }
    proof {
        assert(v@.take(v@.len() as int) =~= v@);
    }
    r.append("]}");
    proof {
        assert(r@ =~= data_json(v@));
    }
    r
}

// ---------------------------------------------------------------------------
// A specification-level parser for the settings document
// ---------------------------------------------------------------------------

pub open spec fn is_escape_code(c: char) -> bool {
    c == '"' || c == '\\' || c == 'n' || c == 'r' || c == 't'
}

pub open spec fn unescaped_char(c: char) -> char {
    if c == '"' {
        '"'
    } else if c == '\\' {
        '\\'
    } else if c == 'n' {
        '\n'
    } else if c == 'r' {
        '\r'
    } else {
        '\t'
    }
}

/// Reads a JSON string body up to and including its closing quote; yields
/// the decoded content and whatever follows the quote.
pub open spec fn parse_string_body(s: Seq<char>) -> Option<(Seq<char>, Seq<char>)>
    decreases s.len(),
{
    if s.len() == 0 {
        None
    } else if s[0] == '"' {
        Some((Seq::empty(), s.skip(1)))
    } else if s[0] == '\\' {
        if s.len() >= 2 && is_escape_code(s[1]) {
            match parse_string_body(s.skip(2)) {
                Some(p) => Some((seq![unescaped_char(s[1])] + p.0, p.1)),
                None => None,
            }
        } else {
            None
        }
    } else {
        match parse_string_body(s.skip(1)) {
            Some(p) => Some((seq![s[0]] + p.0, p.1)),
            None => None,
        }
    }
}

/// Splits off the longest digit prefix.
pub open spec fn parse_digits(s: Seq<char>) -> (Seq<char>, Seq<char>)
    decreases s.len(),
{
    if s.len() > 0 && is_digit_char(s[0]) {
        let p = parse_digits(s.skip(1));
        (seq![s[0]] + p.0, p.1)
    } else {
        (Seq::empty(), s)
    }
}

/// The value of a digit string, most significant digit first.
pub open spec fn digits_value(ds: Seq<char>) -> nat
    decreases ds.len(),
{
    if ds.len() == 0 {
        0
    } else {
        digits_value(ds.drop_last()) * 10 + char_digit(ds.last())
    }
}

pub open spec fn expect_lit(s: Seq<char>, lit: Seq<char>) -> Option<Seq<char>> {
    if lit.is_prefix_of(s) {
        Some(s.skip(lit.len() as int))
    } else {
        None
    }
}

/// Reads a settings document back: host, port value, store address.
pub open spec fn parse_settings_json(j: Seq<char>) -> Option<(Seq<char>, nat, Seq<char>)> {
    match expect_lit(j, "{\"host\":\""@) {
        None => None,
        Some(r1) => match parse_string_body(r1) {
            None => None,
            Some((host, r2)) => match expect_lit(r2, ",\"port\":"@) {
                None => None,
                Some(r3) => {
                    let (ds, r4) = parse_digits(r3);
                    if ds.len() == 0 {
                        None
                    } else {
                        match expect_lit(r4, ",\"db_url\":\""@) {
                            None => None,
                            Some(r5) => match parse_string_body(r5) {
                                None => None,
                                Some((db, r6)) => if r6 == "}"@ {
                                    Some((host, digits_value(ds), db))
                                } else {
                                    None
                                },
                            },
                        }
                    }
                },
            },
        },
    }
}

// ---------------------------------------------------------------------------
// The round trip: parsing undoes rendering
// ---------------------------------------------------------------------------

proof fn lemma_expect_lit(lit: Seq<char>, rest: Seq<char>)
    ensures
        expect_lit(lit + rest, lit) == Some(rest),
{
    assert((lit + rest).subrange(0, lit.len() as int) =~= lit);
    assert((lit + rest).skip(lit.len() as int) =~= rest);
}

proof fn lemma_parse_string_body_of_escape(x: Seq<char>, rest: Seq<char>)
    ensures
        parse_string_body(escape_seq(x) + seq!['"'] + rest) == Some((x, rest)),
    decreases x.len(),
{
    let s = escape_seq(x) + seq!['"'] + rest;
    if x.len() == 0 {
        assert(escape_seq(x) =~= Seq::<char>::empty());
        assert(s =~= seq!['"'] + rest);
        assert(s[0] == '"');
        assert(s.skip(1) =~= rest);
        assert(parse_string_body(s).unwrap().0 =~= x);
    } else {
        let c = x[0];
        let e = escaped_char(c);
        let tail = escape_seq(x.skip(1)) + seq!['"'] + rest;
        assert(s =~= e + tail);
        lemma_parse_string_body_of_escape(x.skip(1), rest);
        if c == '"' || c == '\\' || c == '\n' || c == '\r' || c == '\t' {
            assert(e.len() == 2 && e[0] == '\\' && is_escape_code(e[1]) && unescaped_char(e[1])
                == c);
            assert(s[0] == '\\' && s[1] == e[1]);
            assert(s.skip(2) =~= tail);
            assert(parse_string_body(s.skip(2)) == Some((x.skip(1), rest)));
            assert(seq![c] + x.skip(1) =~= x);
        } else {
            assert(e =~= seq![c]);
            assert(s[0] == c && c != '"' && c != '\\');
            assert(s.skip(1) =~= tail);
            assert(parse_string_body(s.skip(1)) == Some((x.skip(1), rest)));
            assert(seq![c] + x.skip(1) =~= x);
        }
    }
}

proof fn lemma_dec_digits_all_digits(n: nat)
    ensures
        forall|i: int| 0 <= i < dec_digits(n).len() ==> is_digit_char(#[trigger] dec_digits(n)[i]),
    decreases n,
{
    if n < 10 {
        assert(is_digit_char(digit_char(n)));
        assert(dec_digits(n) =~= seq![digit_char(n)]);
    } else {
        lemma_dec_digits_all_digits(n / 10);
        let prev = dec_digits(n / 10);
        assert forall|i: int| 0 <= i < dec_digits(n).len() implies is_digit_char(
            #[trigger] dec_digits(n)[i],
        ) by {
            if i < prev.len() {
                assert(dec_digits(n)[i] == prev[i]);
            } else {
                assert(dec_digits(n)[i] == digit_char(n % 10));
                assert(is_digit_char(digit_char(n % 10)));
            }
        }
    }
}

proof fn lemma_parse_digits_of_digits(ds: Seq<char>, rest: Seq<char>)
    requires
        forall|i: int| 0 <= i < ds.len() ==> is_digit_char(#[trigger] ds[i]),
        rest.len() > 0,
        !is_digit_char(rest[0]),
    ensures
        parse_digits(ds + rest) == (ds, rest),
    decreases ds.len(),
{
    let s = ds + rest;
    if ds.len() == 0 {
        assert(s =~= rest);
        assert(parse_digits(s).0 =~= ds);
    } else {
        assert(s[0] == ds[0]);
        lemma_parse_digits_of_digits(ds.skip(1), rest);
        assert(s.skip(1) =~= ds.skip(1) + rest);
        assert(seq![ds[0]] + ds.skip(1) =~= ds);
    }
}

proof fn lemma_digits_value_of_dec(n: nat)
    ensures
        digits_value(dec_digits(n)) == n,
    decreases n,
{
    if n < 10 {
        assert(dec_digits(n).drop_last() =~= Seq::<char>::empty());
        assert(digits_value(Seq::<char>::empty()) == 0);
        assert(dec_digits(n).last() == digit_char(n));
        assert(char_digit(digit_char(n)) == n);
    } else {
        lemma_digits_value_of_dec(n / 10);
        assert(dec_digits(n).drop_last() =~= dec_digits(n / 10));
        assert(dec_digits(n).last() == digit_char(n % 10));
        assert(char_digit(digit_char(n % 10)) == n % 10);
        assert(digits_value(dec_digits(n)) == (n / 10) * 10 + n % 10);
        assert(n == (n / 10) * 10 + n % 10);
    }
}

/// The settings document round-trips exactly: reading the rendered document
/// back yields precisely the host, port and store address it was built from.
pub proof fn lemma_settings_json_round_trip(host: Seq<char>, port: u16, db_url: Seq<char>)
    ensures
        parse_settings_json(settings_json(host, port, db_url)) == Some(
            (host, port as nat, db_url),
        ),
{
    let pn = port as nat;
    let seg_open = "{\"host\":\""@;
    let seg_port = ",\"port\":"@;
    let seg_db = ",\"db_url\":\""@;
    let brace = "}"@;
    reveal_strlit("{\"host\":\"");
    reveal_strlit("\",\"port\":");
    reveal_strlit(",\"port\":");
    reveal_strlit(",\"db_url\":\"");
    reveal_strlit("\"}");
    reveal_strlit("}");
    let j = settings_json(host, port, db_url);
    let dseg = escape_seq(db_url) + seq!['"'] + brace;
    let rest_digits = seg_db + dseg;
    let rest_port = dec_digits(pn) + rest_digits;
    let hseg = escape_seq(host) + seq!['"'] + (seg_port + rest_port);
    assert(j =~= seg_open + hseg);
    lemma_expect_lit(seg_open, hseg);
    lemma_parse_string_body_of_escape(host, seg_port + rest_port);
    lemma_expect_lit(seg_port, rest_port);
    lemma_dec_digits_all_digits(pn);
    assert(rest_digits[0] == ',' && !is_digit_char(','));
    lemma_parse_digits_of_digits(dec_digits(pn), rest_digits);
    assert(dec_digits(pn).len() > 0);
    lemma_digits_value_of_dec(pn);
    lemma_expect_lit(seg_db, dseg);
    lemma_parse_string_body_of_escape(db_url, brace);
}

} // verus!
