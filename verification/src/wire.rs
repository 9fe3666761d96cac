//! The wire protocol: one JSON document per exchange, one request up, one
//! response back. The grammar is fixed here — requests are either a bare
//! string naming a query, or a one-key object carrying a payload — and the
//! codec below is verified: decoding an encoded document restores it.
//!
//! Texts on the wire (names of effects and parameters) are printable
//! ASCII without quotes or backslashes; numbers are decimal.

use vstd::prelude::*;
use crate::color::{color_from_u32, color_u32};
use crate::params::ParameterTypes;
use crate::strutil::{str_eq, string_eq_str};

verus! {

broadcast use vstd::string::group_string_axioms;

/// A request of the device, as carried on the wire.
#[derive(Debug)]
pub enum Request {
    GetEffects,
    GetEffect,
    GetParameters,
    GetName,
    SetEffect(usize),
    SetOption(String, ParameterTypes),
}

/// The mathematical shape of a request.
pub enum ReqView {
    GetEffects,
    GetEffect,
    GetParameters,
    GetName,
    SetEffect(int),
    SetOption(Seq<char>, ParameterTypes),
}

impl View for Request {
    type V = ReqView;

    open spec fn view(&self) -> ReqView {
        match self {
            Request::GetEffects => ReqView::GetEffects,
            Request::GetEffect => ReqView::GetEffect,
            Request::GetParameters => ReqView::GetParameters,
            Request::GetName => ReqView::GetName,
            Request::SetEffect(n) => ReqView::SetEffect(*n as int),
            Request::SetOption(name, p) => ReqView::SetOption(name@, *p),
        }
    }
}

/// A response of the device: one of the four payload shapes.
#[derive(Debug)]
pub enum Response {
    Text(String),
    Names(Vec<String>),
    Options(Vec<(String, ParameterTypes)>),
    Accepted(bool),
}

/// The mathematical shape of a response.
pub enum RespView {
    Text(Seq<char>),
    Names(Seq<Seq<char>>),
    Options(Seq<(Seq<char>, ParameterTypes)>),
    Accepted(bool),
}

impl View for Response {
    type V = RespView;

    open spec fn view(&self) -> RespView {
        match self {
            Response::Text(s) => RespView::Text(s@),
            Response::Names(l) => RespView::Names(l@.map_values(|s: String| s@)),
            Response::Options(l) => RespView::Options(
                l@.map_values(|e: (String, ParameterTypes)| (e.0@, e.1)),
            ),
            Response::Accepted(b) => RespView::Accepted(*b),
        }
    }
}

/// A character texts on the wire may hold: printable ASCII, no quote, no
/// backslash.
pub open spec fn valid_text_char(c: char) -> bool {
    &&& 0x20 <= c as u32 <= 0x7E
    &&& c != '"'
    &&& c != '\\'
}

/// A text every character of which may stand on the wire.
pub open spec fn valid_text(s: Seq<char>) -> bool {
    forall|i: int| 0 <= i < s.len() ==> valid_text_char(#[trigger] s[i])
}

/// A request the codec round-trips: texts are wire-safe, indices fit the
/// decoder's number range.
pub open spec fn wf_req(r: ReqView) -> bool {
    match r {
        ReqView::SetEffect(n) => 0 <= n <= u32::MAX,
        ReqView::SetOption(name, _) => valid_text(name),
        _ => true,
    }
}

/// A response the codec round-trips: every text in it is wire-safe.
pub open spec fn wf_resp(r: RespView) -> bool {
    match r {
        RespView::Text(s) => valid_text(s),
        RespView::Names(l) => forall|i: int| 0 <= i < l.len() ==> valid_text(#[trigger] l[i]),
        RespView::Options(l) => forall|i: int|
            0 <= i < l.len() ==> valid_text((#[trigger] l[i]).0),
        RespView::Accepted(_) => true,
    }
}

/// The decimal digit character of `d`.
pub open spec fn digit_char(d: int) -> char {
    if d == 0 {
        '0'
    } else if d == 1 {
        '1'
    } else if d == 2 {
        '2'
    } else if d == 3 {
        '3'
    } else if d == 4 {
        '4'
    } else if d == 5 {
        '5'
    } else if d == 6 {
        '6'
    } else if d == 7 {
        '7'
    } else if d == 8 {
        '8'
    } else {
        '9'
    }
}

/// Decimal digits of `n`, most significant first, no leading zeros.
pub open spec fn enc_number(n: int) -> Seq<char>
    decreases n,
{
    if n < 10 {
        seq![digit_char(n)]
    } else {
        enc_number(n / 10).push(digit_char(n % 10))
    }
}

/// A text between quotes.
pub open spec fn enc_text(t: Seq<char>) -> Seq<char> {
    seq!['"'] + t + seq!['"']
}

/// A parameter value: a one-key object, `Color` packing the channels,
/// `Float` carrying the raw scalar.
pub open spec fn enc_param(p: ParameterTypes) -> Seq<char> {
    match p {
        ParameterTypes::Color(c) => seq!['{'] + enc_text("Color"@) + seq![':'] + enc_number(
            color_u32(c),
        ) + seq!['}'],
        ParameterTypes::Float(x) => seq!['{'] + enc_text("Float"@) + seq![':'] + enc_number(
            x as int,
        ) + seq!['}'],
    }
}

/// The document of one request.
pub open spec fn enc_request(r: ReqView) -> Seq<char> {
    match r {
        ReqView::GetEffects => enc_text("GetEffects"@),
        ReqView::GetEffect => enc_text("GetEffect"@),
        ReqView::GetParameters => enc_text("GetParameters"@),
        ReqView::GetName => enc_text("GetName"@),
        ReqView::SetEffect(n) => seq!['{'] + enc_text("SetEffect"@) + seq![':'] + enc_number(n)
            + seq!['}'],
        ReqView::SetOption(name, p) => seq!['{'] + enc_text("SetOption"@) + seq![':', '[']
            + enc_text(name) + seq![','] + enc_param(p) + seq![']', '}'],
    }
}

/// The comma-joined elements of a name list (none for an empty list).
pub open spec fn enc_names_items(l: Seq<Seq<char>>) -> Seq<char>
    decreases l.len(),
{
    if l.len() == 0 {
        Seq::empty()
    } else if l.len() == 1 {
        enc_text(l[0])
    } else {
        enc_text(l[0]) + seq![','] + enc_names_items(l.drop_first())
    }
}

/// The comma-joined entries of an options table (none for an empty one).
pub open spec fn enc_options_items(l: Seq<(Seq<char>, ParameterTypes)>) -> Seq<char>
    decreases l.len(),
{
    if l.len() == 0 {
        Seq::empty()
    } else if l.len() == 1 {
        enc_text(l[0].0) + seq![':'] + enc_param(l[0].1)
    } else {
        enc_text(l[0].0) + seq![':'] + enc_param(l[0].1) + seq![','] + enc_options_items(
            l.drop_first(),
        )
    }
}

/// The document of one response: its payload shape is visible in the
/// first character.
pub open spec fn enc_response(r: RespView) -> Seq<char> {
    match r {
        RespView::Text(s) => enc_text(s),
        RespView::Names(l) => seq!['['] + enc_names_items(l) + seq![']'],
        RespView::Options(l) => seq!['{'] + enc_options_items(l) + seq!['}'],
        RespView::Accepted(b) => if b {
            "true"@
        } else {
            "false"@
        },
    }
}

/// One decimal digit, as a one-character string.
fn digit_str(d: u64) -> (r: &'static str)
    requires
        d < 10,
    ensures
        r@ =~= seq![digit_char(d as int)],
{
    proof {
        reveal_strlit("0");
        reveal_strlit("1");
        reveal_strlit("2");
        reveal_strlit("3");
        reveal_strlit("4");
        reveal_strlit("5");
        reveal_strlit("6");
        reveal_strlit("7");
        reveal_strlit("8");
        reveal_strlit("9");
    }
    match d {
        0 => "0",
        1 => "1",
        2 => "2",
        3 => "3",
        4 => "4",
        5 => "5",
        6 => "6",
        7 => "7",
        8 => "8",
        _ => "9",
    }
}

/// Appends the decimal digits of `n`.
fn write_number(out: &mut String, n: u64)
    ensures
        final(out)@ == old(out)@ + enc_number(n as int),
    decreases n,
{
    if n < 10 {
        out.append(digit_str(n));
    } else {
        write_number(out, n / 10);
        out.append(digit_str(n % 10));
        proof {
            assert(final(out)@ =~= old(out)@ + enc_number(n as int));
        }
    }
}

/// The decimal digits of `n`, as a string.
pub fn decimal_string(n: u64) -> (r: String)
    ensures
        r@ == enc_number(n as int),
{
    let mut r = String::new();
    write_number(&mut r, n);
    proof {
        assert(r@ =~= enc_number(n as int));
    }
    r
}

/// Appends a text between quotes.
fn write_text(out: &mut String, t: &str)
    ensures
        final(out)@ == old(out)@ + enc_text(t@),
{
    proof {
        reveal_strlit("\"");
    }
    out.append("\"");
    out.append(t);
    out.append("\"");
    proof {
        assert(final(out)@ =~= old(out)@ + enc_text(t@));
    }
}

/// Appends a parameter value object.
fn write_param(out: &mut String, p: &ParameterTypes)
    ensures
        final(out)@ == old(out)@ + enc_param(*p),
{
    proof {
        reveal_strlit("{");
        reveal_strlit(":");
        reveal_strlit("}");
        reveal_strlit("Color");
        reveal_strlit("Float");
    }
    out.append("{");
    match p {
        ParameterTypes::Color(c) => {
            write_text(out, "Color");
            out.append(":");
            write_number(out, c.to_u32() as u64);
        },
        ParameterTypes::Float(x) => {
            write_text(out, "Float");
            out.append(":");
            write_number(out, *x as u64);
        },
    }
    out.append("}");
    proof {
        assert(final(out)@ =~= old(out)@ + enc_param(*p));
    }
}

/// Writes the document of one request.
pub fn encode_request(r: &Request) -> (out: String)
    ensures
        out@ == enc_request(r@),
{
    proof {
        reveal_strlit("{");
        reveal_strlit(":");
        reveal_strlit(":[");
        reveal_strlit(",");
        reveal_strlit("]}");
        reveal_strlit("}");
    }
    let mut out = String::new();
    match r {
        Request::GetEffects => write_text(&mut out, "GetEffects"),
        Request::GetEffect => write_text(&mut out, "GetEffect"),
        Request::GetParameters => write_text(&mut out, "GetParameters"),
        Request::GetName => write_text(&mut out, "GetName"),
        Request::SetEffect(n) => {
            out.append("{");
            write_text(&mut out, "SetEffect");
            out.append(":");
            write_number(&mut out, *n as u64);
            out.append("}");
        },
        Request::SetOption(name, p) => {
            out.append("{");
            write_text(&mut out, "SetOption");
            out.append(":[");
            write_text(&mut out, name.as_str());
            out.append(",");
            write_param(&mut out, p);
            out.append("]}");
        },
    }
    proof {
        assert(out@ =~= enc_request(r@));
    }
    out
}

/// Appends the comma-joined elements of a name list, from `i` on.
fn write_names_items(out: &mut String, l: &Vec<String>, i: usize)
    requires
        i <= l@.len(),
    ensures
        final(out)@ == old(out)@ + enc_names_items(
            l@.map_values(|s: String| s@).skip(i as int),
        ),
    decreases l@.len() - i,
{
    let ghost items = l@.map_values(|s: String| s@).skip(i as int);
    if i < l.len() {
        write_text(out, l[i].as_str());
        proof {
            assert(items[0] == l@[i as int]@);
        }
        if i + 1 < l.len() {
            proof {
                reveal_strlit(",");
            }
            out.append(",");
            write_names_items(out, l, i + 1);
            proof {
                assert(items.drop_first() =~= l@.map_values(|s: String| s@).skip(i + 1));
                assert(final(out)@ =~= old(out)@ + enc_names_items(items));
            }
        } else {
            proof {
                assert(items.len() == 1);
                assert(final(out)@ =~= old(out)@ + enc_names_items(items));
            }
        }
    } else {
        proof {
            assert(items.len() == 0);
            assert(final(out)@ =~= old(out)@ + enc_names_items(items));
        }
    }
}

/// Appends the comma-joined entries of an options table, from `i` on.
fn write_options_items(out: &mut String, l: &Vec<(String, ParameterTypes)>, i: usize)
    requires
        i <= l@.len(),
    ensures
        final(out)@ == old(out)@ + enc_options_items(
            l@.map_values(|e: (String, ParameterTypes)| (e.0@, e.1)).skip(i as int),
        ),
    decreases l@.len() - i,
{
    let ghost items = l@.map_values(|e: (String, ParameterTypes)| (e.0@, e.1)).skip(i as int);
    if i < l.len() {
        let e = &l[i];
        write_text(out, e.0.as_str());
        proof {
            reveal_strlit(":");
            assert(items[0] == (l@[i as int].0@, l@[i as int].1));
        }
        out.append(":");
        write_param(out, &e.1);
        if i + 1 < l.len() {
            proof {
                reveal_strlit(",");
            }
            out.append(",");
            write_options_items(out, l, i + 1);
            proof {
                assert(items.drop_first() =~= l@.map_values(
                    |e: (String, ParameterTypes)| (e.0@, e.1),
                ).skip(i + 1));
                assert(final(out)@ =~= old(out)@ + enc_options_items(items));
            }
        } else {
            proof {
                assert(items.len() == 1);
                assert(final(out)@ =~= old(out)@ + enc_options_items(items));
            }
        }
    } else {
        proof {
            assert(items.len() == 0);
            assert(final(out)@ =~= old(out)@ + enc_options_items(items));
        }
    }
}

/// Writes the document of one response.
pub fn encode_response(r: &Response) -> (out: String)
    ensures
        out@ == enc_response(r@),
{
    proof {
        reveal_strlit("[");
        reveal_strlit("]");
        reveal_strlit("{");
        reveal_strlit("}");
    }
    let mut out = String::new();
    match r {
        Response::Text(s) => {
            write_text(&mut out, s.as_str());
        },
        Response::Names(l) => {
            out.append("[");
            write_names_items(&mut out, l, 0);
            out.append("]");
            proof {
                assert(l@.map_values(|s: String| s@).skip(0) =~= l@.map_values(
                    |s: String| s@,
                ));
            }
        },
        Response::Options(l) => {
            out.append("{");
            write_options_items(&mut out, l, 0);
            out.append("}");
            proof {
                assert(l@.map_values(|e: (String, ParameterTypes)| (e.0@, e.1)).skip(0)
                    =~= l@.map_values(|e: (String, ParameterTypes)| (e.0@, e.1)));
            }
        },
        Response::Accepted(b) => {
            proof {
                reveal_strlit("true");
                reveal_strlit("false");
            }
            if *b {
                out.append("true");
            } else {
                out.append("false");
            }
        },
    }
    proof {
        assert(out@ =~= enc_response(r@));
    }
    out
}

/// A decimal digit character.
pub open spec fn is_digit(c: char) -> bool {
    0x30 <= c as u32 <= 0x39
}

/// Value of a decimal digit character.
pub open spec fn digit_val(c: char) -> int {
    c as u32 - 0x30
}

/// Whether character `c` stands at position `i`.
pub open spec fn expect(s: Seq<char>, i: int, c: char) -> bool {
    0 <= i < s.len() && s[i] == c
}

/// The characters up to the closing quote, which must all be wire-safe;
/// yields the content and the position after the quote.
pub open spec fn parse_text_body(s: Seq<char>, i: int) -> Option<(Seq<char>, int)>
    decreases s.len() - i,
{
    if i < 0 || i >= s.len() {
        None
    } else if s[i] == '"' {
        Some((Seq::empty(), i + 1))
    } else if valid_text_char(s[i]) {
        match parse_text_body(s, i + 1) {
            Some((t, j)) => Some((seq![s[i]] + t, j)),
            None => None,
        }
    } else {
        None
    }
}

/// A quoted text at position `i`.
pub open spec fn parse_text(s: Seq<char>, i: int) -> Option<(Seq<char>, int)> {
    if expect(s, i, '"') {
        parse_text_body(s, i + 1)
    } else {
        None
    }
}

/// Position after the digit run starting at `i`.
pub open spec fn digit_run_end(s: Seq<char>, i: int) -> int
    decreases s.len() - i,
{
    if 0 <= i < s.len() && is_digit(s[i]) {
        digit_run_end(s, i + 1)
    } else {
        i
    }
}

/// Value of the digits in `[i, j)`, most significant first.
pub open spec fn digits_value(s: Seq<char>, i: int, j: int) -> int
    decreases j - i,
{
    if j <= i {
        0
    } else {
        digits_value(s, i, j - 1) * 10 + digit_val(s[j - 1])
    }
}

/// A decimal number at position `i`: at least one digit, value within
/// 32 bits.
pub open spec fn parse_number(s: Seq<char>, i: int) -> Option<(int, int)> {
    let j = digit_run_end(s, i);
    if j == i {
        None
    } else if digits_value(s, i, j) > u32::MAX {
        None
    } else {
        Some((digits_value(s, i, j), j))
    }
}

/// A parameter value object at position `i`.
pub open spec fn parse_param(s: Seq<char>, i: int) -> Option<(ParameterTypes, int)> {
    if !expect(s, i, '{') {
        None
    } else {
        match parse_text(s, i + 1) {
            Some((key, j)) => if !expect(s, j, ':') {
                None
            } else {
                match parse_number(s, j + 1) {
                    Some((n, j2)) => if !expect(s, j2, '}') {
                        None
                    } else if key == "Color"@ {
                        Some((ParameterTypes::Color(color_from_u32(n as u32)), j2 + 1))
                    } else if key == "Float"@ {
                        Some((ParameterTypes::Float(n as u32), j2 + 1))
                    } else {
                        None
                    },
                    None => None,
                }
            },
            None => None,
        }
    }
}

/// A successful text parse moves forward and stays inside the document.
pub proof fn lemma_parse_text_body_bounds(s: Seq<char>, i: int)
    ensures
        parse_text_body(s, i) matches Some((t, j)) ==> i < j <= s.len() && t.len() == j - i - 1,
    decreases s.len() - i,
{
    if 0 <= i < s.len() && s[i] != '"' && valid_text_char(s[i]) {
        lemma_parse_text_body_bounds(s, i + 1);
    }
}

/// A successful quoted-text parse moves forward and stays inside the
/// document.
pub proof fn lemma_parse_text_bounds(s: Seq<char>, i: int)
    ensures
        parse_text(s, i) matches Some((t, j)) ==> i + 2 <= j <= s.len() && t.len() == j - i - 2,
{
    lemma_parse_text_body_bounds(s, i + 1);
}

/// The digit run neither moves backwards nor leaves the document.
pub proof fn lemma_digit_run_bounds(s: Seq<char>, i: int)
    requires
        0 <= i <= s.len(),
    ensures
        i <= digit_run_end(s, i) <= s.len(),
    decreases s.len() - i,
{
    if i < s.len() && is_digit(s[i]) {
        lemma_digit_run_bounds(s, i + 1);
    }
}

/// A successful number parse moves forward and stays inside the document.
pub proof fn lemma_parse_number_bounds(s: Seq<char>, i: int)
    requires
        0 <= i,
    ensures
        parse_number(s, i) matches Some((n, j)) ==> i < j <= s.len(),
{
    if i <= s.len() {
        lemma_digit_run_bounds(s, i);
    }
}

/// A successful parameter parse moves forward and stays inside the
/// document.
pub proof fn lemma_parse_param_bounds(s: Seq<char>, i: int)
    ensures
        parse_param(s, i) matches Some((p, j)) ==> i < j <= s.len(),
{
    lemma_parse_text_bounds(s, i + 1);
    match parse_text(s, i + 1) {
        Some((key, j1)) => lemma_parse_number_bounds(s, j1 + 1),
        None => (),
    }
}

/// The elements of a name list from position `i` up to the closing
/// bracket, which is consumed.
pub open spec fn parse_names_items(s: Seq<char>, i: int) -> Option<(Seq<Seq<char>>, int)>
    decreases s.len() - i,
    via parse_names_items_dec
{
    match parse_text(s, i) {
        Some((t, j)) => if expect(s, j, ',') {
            match parse_names_items(s, j + 1) {
                Some((l, j2)) => Some((seq![t] + l, j2)),
                None => None,
            }
        } else if expect(s, j, ']') {
            Some((seq![t], j + 1))
        } else {
            None
        },
        None => None,
    }
}

#[via_fn]
proof fn parse_names_items_dec(s: Seq<char>, i: int) {
    lemma_parse_text_bounds(s, i);
}

/// The entries of an options table from position `i` up to the closing
/// brace, which is consumed.
pub open spec fn parse_options_items(s: Seq<char>, i: int) -> Option<
    (Seq<(Seq<char>, ParameterTypes)>, int),
>
    decreases s.len() - i,
    via parse_options_items_dec
{
    match parse_text(s, i) {
        Some((k, j)) => if !expect(s, j, ':') {
            None
        } else {
            match parse_param(s, j + 1) {
                Some((p, j2)) => if expect(s, j2, ',') {
                    match parse_options_items(s, j2 + 1) {
                        Some((l, j3)) => Some((seq![(k, p)] + l, j3)),
                        None => None,
                    }
                } else if expect(s, j2, '}') {
                    Some((seq![(k, p)], j2 + 1))
                } else {
                    None
                },
                None => None,
            }
        },
        None => None,
    }
}

#[via_fn]
proof fn parse_options_items_dec(s: Seq<char>, i: int) {
    lemma_parse_text_bounds(s, i);
    match parse_text(s, i) {
        Some((k, j)) => lemma_parse_param_bounds(s, j + 1),
        None => (),
    }
}

/// The request held by a whole document, if the document is exactly one
/// well-formed request.
pub open spec fn spec_decode_request(s: Seq<char>) -> Option<ReqView> {
    if s.len() == 0 {
        None
    } else if s[0] == '"' {
        match parse_text(s, 0) {
            Some((t, j)) => if j != s.len() {
                None
            } else if t == "GetEffects"@ {
                Some(ReqView::GetEffects)
            } else if t == "GetEffect"@ {
                Some(ReqView::GetEffect)
            } else if t == "GetParameters"@ {
                Some(ReqView::GetParameters)
            } else if t == "GetName"@ {
                Some(ReqView::GetName)
            } else {
                None
            },
            None => None,
        }
    } else if s[0] == '{' {
        match parse_text(s, 1) {
            Some((key, j)) => if key == "SetEffect"@ {
                if !expect(s, j, ':') {
                    None
                } else {
                    match parse_number(s, j + 1) {
                        Some((n, j2)) => if expect(s, j2, '}') && j2 + 1 == s.len() {
                            Some(ReqView::SetEffect(n))
                        } else {
                            None
                        },
                        None => None,
                    }
                }
            } else if key == "SetOption"@ {
                if !(expect(s, j, ':') && expect(s, j + 1, '[')) {
                    None
                } else {
                    match parse_text(s, j + 2) {
                        Some((name, j2)) => if !expect(s, j2, ',') {
                            None
                        } else {
                            match parse_param(s, j2 + 1) {
                                Some((p, j3)) => if expect(s, j3, ']') && expect(s, j3 + 1, '}')
                                    && j3 + 2 == s.len() {
                                    Some(ReqView::SetOption(name, p))
                                } else {
                                    None
                                },
                                None => None,
                            }
                        },
                        None => None,
                    }
                }
            } else {
                None
            },
            None => None,
        }
    } else {
        None
    }
}

/// The response held by a whole document, if the document is exactly one
/// well-formed response.
pub open spec fn spec_decode_response(s: Seq<char>) -> Option<RespView> {
    if s.len() == 0 {
        None
    } else if s[0] == '"' {
        match parse_text(s, 0) {
            Some((t, j)) => if j == s.len() {
                Some(RespView::Text(t))
            } else {
                None
            },
            None => None,
        }
    } else if s[0] == '[' {
        if s.len() == 2 && s[1] == ']' {
            Some(RespView::Names(Seq::empty()))
        } else {
            match parse_names_items(s, 1) {
                Some((l, j)) => if j == s.len() {
                    Some(RespView::Names(l))
                } else {
                    None
                },
                None => None,
            }
        }
    } else if s[0] == '{' {
        if s.len() == 2 && s[1] == '}' {
            Some(RespView::Options(Seq::empty()))
        } else {
            match parse_options_items(s, 1) {
                Some((l, j)) => if j == s.len() {
                    Some(RespView::Options(l))
                } else {
                    None
                },
                None => None,
            }
        }
    } else if s == "true"@ {
        Some(RespView::Accepted(true))
    } else if s == "false"@ {
        Some(RespView::Accepted(false))
    } else {
        None
    }
}

/// A run of wire-safe characters closed by a quote parses to exactly
/// that run.
proof fn lemma_text_body_closed(s: Seq<char>, i: int, j: int)
    requires
        0 <= i <= j < s.len(),
        forall|k: int| i <= k < j ==> valid_text_char(#[trigger] s[k]),
        s[j] == '"',
    ensures
        parse_text_body(s, i) == Some((s.subrange(i, j), j + 1)),
    decreases j - i,
{
    if i == j {
        assert(s.subrange(i, j) =~= Seq::<char>::empty());
    } else {
        lemma_text_body_closed(s, i + 1, j);
        assert(seq![s[i]] + s.subrange(i + 1, j) =~= s.subrange(i, j));
    }
}

/// A character that is neither wire-safe nor a quote fails the body
/// parse.
proof fn lemma_text_body_invalid(s: Seq<char>, i: int, j: int)
    requires
        0 <= i <= j < s.len(),
        forall|k: int| i <= k < j ==> valid_text_char(#[trigger] s[k]),
        s[j] != '"',
        !valid_text_char(s[j]),
    ensures
        parse_text_body(s, i) is None,
    decreases j - i,
{
    if i < j {
        lemma_text_body_invalid(s, i + 1, j);
    }
}

/// A body that never closes fails the parse.
proof fn lemma_text_body_unterminated(s: Seq<char>, i: int)
    requires
        0 <= i <= s.len(),
        forall|k: int| i <= k < s.len() ==> valid_text_char(#[trigger] s[k]),
    ensures
        parse_text_body(s, i) is None,
    decreases s.len() - i,
{
    if i < s.len() {
        lemma_text_body_unterminated(s, i + 1);
    }
}

/// Whether `c` may stand in a text on the wire.
fn is_valid_text_char(c: char) -> (b: bool)
    ensures
        b == valid_text_char(c),
{
    let u = c as u32;
    0x20 <= u && u <= 0x7E && c != '"' && c != '\\'
}

/// Whether `c` is a decimal digit.
fn is_digit_char(c: char) -> (b: bool)
    ensures
        b == is_digit(c),
{
    let u = c as u32;
    0x30 <= u && u <= 0x39
}

/// The view of an executable text-parse result.
pub open spec fn text_res_view(r: Option<(String, usize)>) -> Option<(Seq<char>, int)> {
    match r {
        Some((t, j)) => Some((t@, j as int)),
        None => None,
    }
}

/// A quoted text at position `i` of the document.
pub fn parse_text_at(s: &str, i: usize) -> (r: Option<(String, usize)>)
    ensures
        text_res_view(r) == parse_text(s@, i as int),
{
    let n = s.unicode_len();
    if i >= n || s.get_char(i) != '"' {
        return None;
    }
    let mut j = i + 1;
    while j < n
        invariant
            i + 1 <= j <= n,
            n == s@.len(),
            s@[i as int] == '"',
            forall|k: int| i + 1 <= k < j ==> valid_text_char(#[trigger] s@[k]),
        decreases n - j,
    {
        let c = s.get_char(j);
        if c == '"' {
            proof {
                lemma_text_body_closed(s@, i + 1, j as int);
            }
            let content = s.substring_char(i + 1, j).to_owned();
            return Some((content, j + 1));
        }
        if !is_valid_text_char(c) {
            proof {
                lemma_text_body_invalid(s@, i + 1, j as int);
            }
            return None;
        }
        j = j + 1;
    }
    proof {
        lemma_text_body_unterminated(s@, i + 1);
    }
    None
}

/// The view of an executable number-parse result.
pub open spec fn num_res_view(r: Option<(u32, usize)>) -> Option<(int, int)> {
    match r {
        Some((v, j)) => Some((v as int, j as int)),
        None => None,
    }
}

/// A decimal number at position `i` of the document; values past 32 bits
/// are rejected.
pub fn parse_number_at(s: &str, i: usize) -> (r: Option<(u32, usize)>)
    ensures
        num_res_view(r) == parse_number(s@, i as int),
{
    let n = s.unicode_len();
    if i >= n {
        return None;
    }
    let mut j = i;
    let mut acc: u64 = 0;
    let mut over = false;
    while j < n
        invariant
            i <= j <= n,
            n == s@.len(),
            digit_run_end(s@, i as int) == digit_run_end(s@, j as int),
            !over ==> acc == digits_value(s@, i as int, j as int) && acc <= u32::MAX,
            over ==> digits_value(s@, i as int, j as int) > u32::MAX,
        decreases n - j,
    {
        let c = s.get_char(j);
        if !is_digit_char(c) {
            if j == i || over {
                return None;
            }
            return Some((acc as u32, j));
        }
        let d: u64 = (c as u32 - 0x30) as u64;
        proof {
            assert(digits_value(s@, i as int, j + 1) == digits_value(s@, i as int, j as int) * 10
                + digit_val(s@[j as int]));
        }
        if over {
        } else {
            let next: u64 = acc * 10 + d;
            if next > 0xFFFF_FFFF {
                over = true;
            } else {
                acc = next;
            }
        }
        j = j + 1;
    }
    if j == i || over {
        return None;
    }
    Some((acc as u32, j))
}

/// The view of an executable parameter-parse result.
pub open spec fn param_res_view(r: Option<(ParameterTypes, usize)>) -> Option<
    (ParameterTypes, int),
> {
    match r {
        Some((p, j)) => Some((p, j as int)),
        None => None,
    }
}

/// A parameter value object at position `i` of the document.
pub fn parse_param_at(s: &str, i: usize) -> (r: Option<(ParameterTypes, usize)>)
    ensures
        param_res_view(r) == parse_param(s@, i as int),
{
    let n = s.unicode_len();
    if !(i < n && s.get_char(i) == '{') {
        return None;
    }
    let (key, j) = match parse_text_at(s, i + 1) {
        Some(x) => x,
        None => {
            return None;
        },
    };
    if !(j < n && s.get_char(j) == ':') {
        return None;
    }
    let (num, j2) = match parse_number_at(s, j + 1) {
        Some(x) => x,
        None => {
            return None;
        },
    };
    if !(j2 < n && s.get_char(j2) == '}') {
        return None;
    }
    if string_eq_str(&key, "Color") {
        Some((ParameterTypes::Color(crate::color::RGBLedColor::new_from_u32(num)), j2 + 1))
    } else if string_eq_str(&key, "Float") {
        Some((ParameterTypes::Float(num), j2 + 1))
    } else {
        None
    }
}

/// The view of a decoded request.
pub open spec fn req_opt_view(r: Option<Request>) -> Option<ReqView> {
    match r {
        Some(x) => Some(x@),
        None => None,
    }
}

/// Decodes a whole document as one request; anything else is `None`.
pub fn decode_request(s: &str) -> (r: Option<Request>)
    ensures
        req_opt_view(r) == spec_decode_request(s@),
{
    let n = s.unicode_len();
    if n == 0 {
        return None;
    }
    let c0 = s.get_char(0);
    if c0 == '"' {
        let (t, j) = match parse_text_at(s, 0) {
            Some(x) => x,
            None => {
                return None;
            },
        };
        if j != n {
            return None;
        }
        if string_eq_str(&t, "GetEffects") {
            Some(Request::GetEffects)
        } else if string_eq_str(&t, "GetEffect") {
            Some(Request::GetEffect)
        } else if string_eq_str(&t, "GetParameters") {
            Some(Request::GetParameters)
        } else if string_eq_str(&t, "GetName") {
            Some(Request::GetName)
        } else {
            None
        }
    } else if c0 == '{' {
        let (key, j) = match parse_text_at(s, 1) {
            Some(x) => x,
            None => {
                return None;
            },
        };
        if string_eq_str(&key, "SetEffect") {
            if !(j < n && s.get_char(j) == ':') {
                return None;
            }
            let (num, j2) = match parse_number_at(s, j + 1) {
                Some(x) => x,
                None => {
                    return None;
                },
            };
            if j2 < n && s.get_char(j2) == '}' && j2 + 1 == n {
                Some(Request::SetEffect(num as usize))
            } else {
                None
            }
        } else if string_eq_str(&key, "SetOption") {
            if !(j < n && s.get_char(j) == ':') {
                return None;
            }
            if !(j + 1 < n && s.get_char(j + 1) == '[') {
                return None;
            }
            let (name, j2) = match parse_text_at(s, j + 2) {
                Some(x) => x,
                None => {
                    return None;
                },
            };
            if !(j2 < n && s.get_char(j2) == ',') {
                return None;
            }
            let (p, j3) = match parse_param_at(s, j2 + 1) {
                Some(x) => x,
                None => {
                    return None;
                },
            };
            if j3 < n && s.get_char(j3) == ']' && j3 + 1 < n && s.get_char(j3 + 1) == '}' && j3 + 2
                == n {
                Some(Request::SetOption(name, p))
            } else {
                None
            }
        } else {
            None
        }
    } else {
        None
    }
}

/// The view of an executable name-list parse result.
pub open spec fn names_res_view(r: Option<(Vec<String>, usize)>) -> Option<(Seq<Seq<char>>, int)> {
    match r {
        Some((l, j)) => Some((l@.map_values(|t: String| t@), j as int)),
        None => None,
    }
}

/// The elements of a name list from position `i` on.
fn parse_names_items_at(s: &str, i: usize) -> (r: Option<(Vec<String>, usize)>)
    ensures
        names_res_view(r) == parse_names_items(s@, i as int),
    decreases s@.len() - i,
{
    let n = s.unicode_len();
    let (t, j) = match parse_text_at(s, i) {
        Some(x) => x,
        None => {
            return None;
        },
    };
    proof {
        lemma_parse_text_bounds(s@, i as int);
    }
    if j < n && s.get_char(j) == ',' {
        match parse_names_items_at(s, j + 1) {
            Some((l, j2)) => {
                let mut v: Vec<String> = Vec::new();
                v.push(t);
                let mut rest = l;
                v.append(&mut rest);
                proof {
                    assert(v@.map_values(|x: String| x@) =~= seq![t@] + l@.map_values(
                        |x: String| x@,
                    ));
                }
                Some((v, j2))
            },
            None => None,
        }
    } else if j < n && s.get_char(j) == ']' {
        let mut v: Vec<String> = Vec::new();
        v.push(t);
        proof {
            assert(v@.map_values(|x: String| x@) =~= seq![t@]);
        }
        Some((v, j + 1))
    } else {
        None
    }
}

/// The view of an executable options-table parse result.
pub open spec fn options_res_view(r: Option<(Vec<(String, ParameterTypes)>, usize)>) -> Option<
    (Seq<(Seq<char>, ParameterTypes)>, int),
> {
    match r {
        Some((l, j)) => Some(
            (l@.map_values(|e: (String, ParameterTypes)| (e.0@, e.1)), j as int),
        ),
        None => None,
    }
}

/// The entries of an options table from position `i` on.
fn parse_options_items_at(s: &str, i: usize) -> (r: Option<(Vec<(String, ParameterTypes)>, usize)>)
    ensures
        options_res_view(r) == parse_options_items(s@, i as int),
    decreases s@.len() - i,
{
    let n = s.unicode_len();
    let (k, j) = match parse_text_at(s, i) {
        Some(x) => x,
        None => {
            return None;
        },
    };
    proof {
        lemma_parse_text_bounds(s@, i as int);
    }
    if !(j < n && s.get_char(j) == ':') {
        return None;
    }
    let (p, j2) = match parse_param_at(s, j + 1) {
        Some(x) => x,
        None => {
            return None;
        },
    };
    proof {
        lemma_parse_param_bounds(s@, j + 1);
    }
    if j2 < n && s.get_char(j2) == ',' {
        match parse_options_items_at(s, j2 + 1) {
            Some((l, j3)) => {
                let mut v: Vec<(String, ParameterTypes)> = Vec::new();
                v.push((k, p));
                let mut rest = l;
                v.append(&mut rest);
                proof {
                    assert(v@.map_values(|e: (String, ParameterTypes)| (e.0@, e.1)) =~= seq![
                        (k@, p),
                    ] + l@.map_values(|e: (String, ParameterTypes)| (e.0@, e.1)));
                }
                Some((v, j3))
            },
            None => None,
        }
    } else if j2 < n && s.get_char(j2) == '}' {
        let mut v: Vec<(String, ParameterTypes)> = Vec::new();
        v.push((k, p));
        proof {
            assert(v@.map_values(|e: (String, ParameterTypes)| (e.0@, e.1)) =~= seq![(k@, p)]);
        }
        Some((v, j2 + 1))
    } else {
        None
    }
}

/// The view of a decoded response.
pub open spec fn resp_opt_view(r: Option<Response>) -> Option<RespView> {
    match r {
        Some(x) => Some(x@),
        None => None,
    }
}

/// Decodes a whole document as one response; anything else is `None`.
pub fn decode_response(s: &str) -> (r: Option<Response>)
    ensures
        resp_opt_view(r) == spec_decode_response(s@),
{
    let n = s.unicode_len();
    if n == 0 {
        return None;
    }
    let c0 = s.get_char(0);
    if c0 == '"' {
        match parse_text_at(s, 0) {
            Some((t, j)) => if j == n {
                Some(Response::Text(t))
            } else {
                None
            },
            None => None,
        }
    } else if c0 == '[' {
        if n == 2 && s.get_char(1) == ']' {
            let v: Vec<String> = Vec::new();
            proof {
                assert(v@.map_values(|x: String| x@) =~= Seq::<Seq<char>>::empty());
            }
            Some(Response::Names(v))
        } else {
            match parse_names_items_at(s, 1) {
                Some((l, j)) => if j == n {
                    Some(Response::Names(l))
                } else {
                    None
                },
                None => None,
            }
        }
    } else if c0 == '{' {
        if n == 2 && s.get_char(1) == '}' {
            let v: Vec<(String, ParameterTypes)> = Vec::new();
            proof {
                assert(v@.map_values(|e: (String, ParameterTypes)| (e.0@, e.1)) =~= Seq::<
                    (Seq<char>, ParameterTypes),
                >::empty());
            }
            Some(Response::Options(v))
        } else {
            match parse_options_items_at(s, 1) {
                Some((l, j)) => if j == n {
                    Some(Response::Options(l))
                } else {
                    None
                },
                None => None,
            }
        }
    } else if str_eq(s, "true") {
        Some(Response::Accepted(true))
    } else if str_eq(s, "false") {
        Some(Response::Accepted(false))
    } else {
        None
    }
}

/// Whether `pat` stands at position `i` of `s`.
pub open spec fn matches_at(s: Seq<char>, i: int, pat: Seq<char>) -> bool {
    &&& 0 <= i
    &&& i + pat.len() <= s.len()
    &&& forall|k: int| 0 <= k < pat.len() ==> s[i + k] == #[trigger] pat[k]
}

/// A match of a concatenation is a match of each part in place.
proof fn lemma_matches_split(s: Seq<char>, i: int, a: Seq<char>, b: Seq<char>)
    requires
        matches_at(s, i, a + b),
    ensures
        matches_at(s, i, a),
        matches_at(s, i + a.len(), b),
{
    assert forall|k: int| 0 <= k < a.len() implies s[i + k] == a[k] by {
        assert((a + b)[k] == a[k]);
    }
    assert forall|k: int| 0 <= k < b.len() implies s[i + a.len() + k] == b[k] by {
        assert((a + b)[a.len() + k] == b[k]);
    }
}


/// The single character of a one-character match.
proof fn lemma_matches_char(s: Seq<char>, i: int, c: char)
    requires
        matches_at(s, i, seq![c]),
    ensures
        0 <= i < s.len() && s[i] == c,
{
    assert(s[i + 0] == seq![c][0]);
}

/// The two characters of a two-character match.
proof fn lemma_matches_char2(s: Seq<char>, i: int, c1: char, c2: char)
    requires
        matches_at(s, i, seq![c1, c2]),
    ensures
        0 <= i && i + 1 < s.len() && s[i] == c1 && s[i + 1] == c2,
{
    assert(s[i + 0] == seq![c1, c2][0]);
    assert(s[i + 1] == seq![c1, c2][1]);
}

/// An encoded text in place parses back to its content.
proof fn lemma_parse_text_at_enc(s: Seq<char>, i: int, t: Seq<char>)
    requires
        valid_text(t),
        matches_at(s, i, enc_text(t)),
    ensures
        parse_text(s, i) == Some((t, i + t.len() + 2)),
{
    assert(s[i] == enc_text(t)[0]);
    assert(enc_text(t)[0] == '"');
    assert forall|k: int| i + 1 <= k < i + 1 + t.len() implies valid_text_char(#[trigger] s[k])
        && s[k] == t[k - i - 1] by {
        assert(enc_text(t)[k - i] == t[k - i - 1]);
    }
    assert(s[i + 1 + t.len()] == enc_text(t)[(1 + t.len()) as int]);
    assert(enc_text(t)[(1 + t.len()) as int] == '"');
    lemma_text_body_closed(s, i + 1, i + 1 + t.len());
    assert(s.subrange(i + 1, i + 1 + t.len()) =~= t);
}

/// Digit characters carry their digit values.
proof fn lemma_digit_char_val(d: int)
    requires
        0 <= d <= 9,
    ensures
        is_digit(digit_char(d)),
        digit_val(digit_char(d)) == d,
{
}

/// An encoded number is one or more digit characters.
proof fn lemma_enc_number_digits(n: int)
    requires
        n >= 0,
    ensures
        enc_number(n).len() >= 1,
        forall|k: int| 0 <= k < enc_number(n).len() ==> is_digit(#[trigger] enc_number(n)[k]),
    decreases n,
{
    if n < 10 {
        lemma_digit_char_val(n);
    } else {
        lemma_enc_number_digits(n / 10);
        lemma_digit_char_val(n % 10);
        assert forall|k: int| 0 <= k < enc_number(n).len() implies is_digit(
            #[trigger] enc_number(n)[k],
        ) by {
            if k < enc_number(n / 10).len() {
                assert(enc_number(n)[k] == enc_number(n / 10)[k]);
            } else {
                assert(enc_number(n)[k] == digit_char(n % 10));
            }
        }
    }
}

/// A digit run bounded by a non-digit ends exactly there.
proof fn lemma_digit_run_to(s: Seq<char>, i: int, j: int)
    requires
        0 <= i <= j <= s.len(),
        forall|k: int| i <= k < j ==> is_digit(#[trigger] s[k]),
        j == s.len() || !is_digit(s[j]),
    ensures
        digit_run_end(s, i) == j,
    decreases j - i,
{
    if i < j {
        lemma_digit_run_to(s, i + 1, j);
    }
}

/// The digits of an encoded number in place evaluate back to it.
proof fn lemma_digits_value_enc(s: Seq<char>, i: int, n: int)
    requires
        n >= 0,
        matches_at(s, i, enc_number(n)),
    ensures
        digits_value(s, i, i + enc_number(n).len()) == n,
    decreases n,
{
    if n < 10 {
        lemma_digit_char_val(n);
        assert(s[i] == enc_number(n)[0]);
        assert(digits_value(s, i, i) == 0);
        assert(digits_value(s, i, i + 1) == digit_val(s[i]));
    } else {
        let pre = enc_number(n / 10);
        assert forall|k: int| 0 <= k < pre.len() implies s[i + k] == #[trigger] pre[k] by {
            assert(enc_number(n)[k] == pre[k]);
        }
        lemma_digits_value_enc(s, i, n / 10);
        lemma_digit_char_val(n % 10);
        assert(s[i + pre.len()] == enc_number(n)[pre.len() as int]);
        assert(enc_number(n)[pre.len() as int] == digit_char(n % 10));
        assert(enc_number(n).len() == pre.len() + 1);
        assert(digits_value(s, i, i + enc_number(n).len()) == digits_value(s, i, i + pre.len())
            * 10 + digit_val(s[i + pre.len()]));
        vstd::arithmetic::div_mod::lemma_fundamental_div_mod(n, 10);
    }
}

/// An encoded number in place, bounded by a non-digit, parses back to its
/// value.
proof fn lemma_parse_number_at_enc(s: Seq<char>, i: int, n: int)
    requires
        0 <= n <= u32::MAX,
        matches_at(s, i, enc_number(n)),
        i + enc_number(n).len() == s.len() || !is_digit(s[i + enc_number(n).len()]),
    ensures
        parse_number(s, i) == Some((n, i + enc_number(n).len())),
{
    lemma_enc_number_digits(n);
    assert forall|k: int| i <= k < i + enc_number(n).len() implies is_digit(#[trigger] s[k]) by {
        assert(s[k] == enc_number(n)[k - i]);
    }
    lemma_digit_run_to(s, i, i + enc_number(n).len());
    lemma_digits_value_enc(s, i, n);
}

/// The key literals of the wire grammar are wire-safe texts, and all
/// distinct.
proof fn lemma_grammar_literals()
    ensures
        valid_text("Color"@),
        valid_text("Float"@),
        valid_text("GetEffects"@),
        valid_text("GetEffect"@),
        valid_text("GetParameters"@),
        valid_text("GetName"@),
        valid_text("SetEffect"@),
        valid_text("SetOption"@),
        "Color"@ != "Float"@,
        "GetEffects"@ != "GetEffect"@,
        "GetEffects"@ != "GetParameters"@,
        "GetEffects"@ != "GetName"@,
        "GetEffect"@ != "GetParameters"@,
        "GetEffect"@ != "GetName"@,
        "GetParameters"@ != "GetName"@,
        "SetEffect"@ != "SetOption"@,
{
    reveal_strlit("Color");
    reveal_strlit("Float");
    reveal_strlit("GetEffects");
    reveal_strlit("GetEffect");
    reveal_strlit("GetParameters");
    reveal_strlit("GetName");
    reveal_strlit("SetEffect");
    reveal_strlit("SetOption");
    assert("Color"@[0] == 'C' && "Float"@[0] == 'F');
    assert("GetEffects"@.len() == 10 && "GetEffect"@.len() == 9 && "GetParameters"@.len() == 13
        && "GetName"@.len() == 7);
    assert("SetEffect"@[3] == 'E' && "SetOption"@[3] == 'O');
}

/// An encoded parameter value in place parses back to it.
proof fn lemma_parse_param_at_enc(s: Seq<char>, i: int, p: ParameterTypes)
    requires
        matches_at(s, i, enc_param(p)),
    ensures
        parse_param(s, i) == Some((p, i + enc_param(p).len())),
{
    lemma_grammar_literals();
    match p {
        ParameterTypes::Color(c) => {
            let key = enc_text("Color"@);
            let num = enc_number(color_u32(c));
            lemma_matches_split(s, i, seq!['{'] + key + seq![':'] + num, seq!['}']);
            lemma_matches_split(s, i, seq!['{'] + key + seq![':'], num);
            lemma_matches_split(s, i, seq!['{'] + key, seq![':']);
            lemma_matches_split(s, i, seq!['{'], key);
            lemma_matches_char(s, i, '{');
            lemma_parse_text_at_enc(s, i + 1, "Color"@);
            let jc = i + 1 + key.len();
            lemma_matches_char(s, jc, ':');
            assert(0 <= color_u32(c) <= 0xFFFFFF);
            assert(!is_digit('}'));
            lemma_matches_char(s, jc + 1 + num.len(), '}');
            lemma_parse_number_at_enc(s, jc + 1, color_u32(c));
            crate::color::lemma_color_pack_unpack(c);
        },
        ParameterTypes::Float(x) => {
            let key = enc_text("Float"@);
            let num = enc_number(x as int);
            lemma_matches_split(s, i, seq!['{'] + key + seq![':'] + num, seq!['}']);
            lemma_matches_split(s, i, seq!['{'] + key + seq![':'], num);
            lemma_matches_split(s, i, seq!['{'] + key, seq![':']);
            lemma_matches_split(s, i, seq!['{'], key);
            lemma_matches_char(s, i, '{');
            lemma_parse_text_at_enc(s, i + 1, "Float"@);
            let jc = i + 1 + key.len();
            lemma_matches_char(s, jc, ':');
            assert(!is_digit('}'));
            lemma_matches_char(s, jc + 1 + num.len(), '}');
            lemma_parse_number_at_enc(s, jc + 1, x as int);
        },
    }
}

/// Decoding an encoded request restores it: the codec is lossless on
/// every well-formed request.
#[verifier::rlimit(100)]
pub proof fn lemma_request_round_trip(r: ReqView)
    requires
        wf_req(r),
    ensures
        spec_decode_request(enc_request(r)) == Some(r),
{
    lemma_grammar_literals();
    let s = enc_request(r);
    assert(matches_at(s, 0, s));
    match r {
        ReqView::GetEffects => {
            lemma_parse_text_at_enc(s, 0, "GetEffects"@);
            assert(s[0] == enc_text("GetEffects"@)[0]);
            assert(enc_text("GetEffects"@)[0] == '"');
        },
        ReqView::GetEffect => {
            lemma_parse_text_at_enc(s, 0, "GetEffect"@);
            assert(s[0] == enc_text("GetEffect"@)[0]);
            assert(enc_text("GetEffect"@)[0] == '"');
        },
        ReqView::GetParameters => {
            lemma_parse_text_at_enc(s, 0, "GetParameters"@);
            assert(s[0] == enc_text("GetParameters"@)[0]);
            assert(enc_text("GetParameters"@)[0] == '"');
        },
        ReqView::GetName => {
            lemma_parse_text_at_enc(s, 0, "GetName"@);
            assert(s[0] == enc_text("GetName"@)[0]);
            assert(enc_text("GetName"@)[0] == '"');
        },
        ReqView::SetEffect(n) => {
            let key = enc_text("SetEffect"@);
            let num = enc_number(n);
            lemma_matches_split(s, 0, seq!['{'] + key + seq![':'] + num, seq!['}']);
            lemma_matches_split(s, 0, seq!['{'] + key + seq![':'], num);
            lemma_matches_split(s, 0, seq!['{'] + key, seq![':']);
            lemma_matches_split(s, 0, seq!['{'], key);
            lemma_matches_char(s, 0, '{');
            lemma_parse_text_at_enc(s, 1, "SetEffect"@);
            let jc = 1 + key.len() as int;
            lemma_matches_char(s, jc, ':');
            assert(!is_digit('}'));
            lemma_matches_char(s, jc + 1 + num.len(), '}');
            lemma_parse_number_at_enc(s, jc + 1, n);
        },
        ReqView::SetOption(name, p) => {
            let key = enc_text("SetOption"@);
            let nm = enc_text(name);
            let pv = enc_param(p);
            lemma_matches_split(
                s,
                0,
                seq!['{'] + key + seq![':', '['] + nm + seq![','] + pv,
                seq![']', '}'],
            );
            lemma_matches_split(s, 0, seq!['{'] + key + seq![':', '['] + nm + seq![','], pv);
            lemma_matches_split(s, 0, seq!['{'] + key + seq![':', '['] + nm, seq![',']);
            lemma_matches_split(s, 0, seq!['{'] + key + seq![':', '['], nm);
            lemma_matches_split(s, 0, seq!['{'] + key, seq![':', '[']);
            lemma_matches_split(s, 0, seq!['{'], key);
            lemma_matches_char(s, 0, '{');
            lemma_parse_text_at_enc(s, 1, "SetOption"@);
            let jc = 1 + key.len() as int;
            lemma_matches_char2(s, jc, ':', '[');
            lemma_parse_text_at_enc(s, jc + 2, name);
            let j2 = jc + 2 + name.len() + 2;
            lemma_matches_char(s, j2, ',');
            lemma_parse_param_at_enc(s, j2 + 1, p);
            let j3 = j2 + 1 + pv.len();
            lemma_matches_char2(s, j3, ']', '}');
            assert(j3 + 2 == s.len());
        },
    }
}

/// An encoded non-empty name list followed by its closing bracket parses
/// back to the list.
proof fn lemma_parse_names_items_enc(s: Seq<char>, i: int, l: Seq<Seq<char>>)
    requires
        l.len() >= 1,
        forall|k: int| 0 <= k < l.len() ==> valid_text(#[trigger] l[k]),
        matches_at(s, i, enc_names_items(l) + seq![']']),
    ensures
        parse_names_items(s, i) == Some((l, i + enc_names_items(l).len() + 1)),
    decreases l.len(),
{
    if l.len() == 1 {
        lemma_matches_split(s, i, enc_text(l[0]), seq![']']);
        lemma_parse_text_at_enc(s, i, l[0]);
        let j = i + l[0].len() + 2;
        lemma_matches_char(s, j, ']');
        assert(s[j] != ',');
        assert(seq![l[0]] =~= l);
    } else {
        let rest = l.drop_first();
        assert(enc_names_items(l) + seq![']'] =~= enc_text(l[0]) + seq![','] + (enc_names_items(
            rest,
        ) + seq![']']));
        lemma_matches_split(
            s,
            i,
            enc_text(l[0]) + seq![','],
            enc_names_items(rest) + seq![']'],
        );
        lemma_matches_split(s, i, enc_text(l[0]), seq![',']);
        lemma_parse_text_at_enc(s, i, l[0]);
        let j = i + l[0].len() + 2;
        lemma_matches_char(s, j, ',');
        lemma_parse_names_items_enc(s, j + 1, rest);
        assert(seq![l[0]] + rest =~= l);
    }
}

/// An encoded non-empty options table followed by its closing brace
/// parses back to the table.
proof fn lemma_parse_options_items_enc(s: Seq<char>, i: int, l: Seq<(Seq<char>, ParameterTypes)>)
    requires
        l.len() >= 1,
        forall|k: int| 0 <= k < l.len() ==> valid_text((#[trigger] l[k]).0),
        matches_at(s, i, enc_options_items(l) + seq!['}']),
    ensures
        parse_options_items(s, i) == Some((l, i + enc_options_items(l).len() + 1)),
    decreases l.len(),
{
    if l.len() == 1 {
        lemma_matches_split(s, i, enc_text(l[0].0) + seq![':'] + enc_param(l[0].1), seq!['}']);
        lemma_matches_split(s, i, enc_text(l[0].0) + seq![':'], enc_param(l[0].1));
        lemma_matches_split(s, i, enc_text(l[0].0), seq![':']);
        lemma_parse_text_at_enc(s, i, l[0].0);
        let j = i + l[0].0.len() + 2;
        lemma_matches_char(s, j, ':');
        lemma_parse_param_at_enc(s, j + 1, l[0].1);
        let j2 = j + 1 + enc_param(l[0].1).len();
        lemma_matches_char(s, j2, '}');
        assert(s[j2] != ',');
        assert(seq![(l[0].0, l[0].1)] =~= l);
    } else {
        let rest = l.drop_first();
        assert(enc_options_items(l) + seq!['}'] =~= enc_text(l[0].0) + seq![':'] + enc_param(
            l[0].1,
        ) + seq![','] + (enc_options_items(rest) + seq!['}']));
        lemma_matches_split(
            s,
            i,
            enc_text(l[0].0) + seq![':'] + enc_param(l[0].1) + seq![','],
            enc_options_items(rest) + seq!['}'],
        );
        lemma_matches_split(s, i, enc_text(l[0].0) + seq![':'] + enc_param(l[0].1), seq![',']);
        lemma_matches_split(s, i, enc_text(l[0].0) + seq![':'], enc_param(l[0].1));
        lemma_matches_split(s, i, enc_text(l[0].0), seq![':']);
        lemma_parse_text_at_enc(s, i, l[0].0);
        let j = i + l[0].0.len() + 2;
        lemma_matches_char(s, j, ':');
        lemma_parse_param_at_enc(s, j + 1, l[0].1);
        let j2 = j + 1 + enc_param(l[0].1).len();
        lemma_matches_char(s, j2, ',');
        lemma_parse_options_items_enc(s, j2 + 1, rest);
        assert(seq![(l[0].0, l[0].1)] + rest =~= l);
    }
}

/// Decoding an encoded response restores it: the codec is lossless on
/// every well-formed response.
pub proof fn lemma_response_round_trip(r: RespView)
    requires
        wf_resp(r),
    ensures
        spec_decode_response(enc_response(r)) == Some(r),
{
    let s = enc_response(r);
    assert(matches_at(s, 0, s));
    match r {
        RespView::Text(t) => {
            lemma_parse_text_at_enc(s, 0, t);
            assert(s[0] == enc_text(t)[0]);
            assert(enc_text(t)[0] == '"');
        },
        RespView::Names(l) => {
            assert(s[0] == (seq!['['] + enc_names_items(l))[0]);
            assert((seq!['['] + enc_names_items(l))[0] == seq!['['][0]);
            if l.len() == 0 {
                assert(enc_names_items(l) =~= Seq::<char>::empty());
                assert(s =~= seq!['[', ']']);
                assert(l =~= Seq::<Seq<char>>::empty());
            } else {
                assert(seq!['['] + (enc_names_items(l) + seq![']']) =~= s);
                lemma_matches_split(s, 0, seq!['['], enc_names_items(l) + seq![']']);
                assert(s[1] == (enc_names_items(l) + seq![']'])[0]);
                assert((enc_names_items(l) + seq![']'])[0] == enc_text(l[0])[0]);
                assert(s[1] == '"');
                lemma_parse_names_items_enc(s, 1, l);
            }
        },
        RespView::Options(l) => {
            assert(s[0] == (seq!['{'] + enc_options_items(l))[0]);
            assert((seq!['{'] + enc_options_items(l))[0] == seq!['{'][0]);
            if l.len() == 0 {
                assert(enc_options_items(l) =~= Seq::<char>::empty());
                assert(s =~= seq!['{', '}']);
                assert(l =~= Seq::<(Seq<char>, ParameterTypes)>::empty());
            } else {
                assert(seq!['{'] + (enc_options_items(l) + seq!['}']) =~= s);
                lemma_matches_split(s, 0, seq!['{'], enc_options_items(l) + seq!['}']);
                assert(s[1] == (enc_options_items(l) + seq!['}'])[0]);
                assert((enc_options_items(l) + seq!['}'])[0] == enc_text(l[0].0)[0]);
                assert(s[1] == '"');
                lemma_parse_options_items_enc(s, 1, l);
            }
        },
        RespView::Accepted(b) => {
            reveal_strlit("true");
            reveal_strlit("false");
            assert("true"@[0] == 't' && "false"@[0] == 'f');
            assert("true"@.len() == 4 && "false"@.len() == 5);
        },
    }
}

} // verus!
