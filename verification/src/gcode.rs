//! Parser for slicer-produced G-code files.
//!
//! The file is read line by line.  A line is either a slicer-info header, a
//! `; key = value` comment (recognised keys fill [`Meta`], others
//! [`SlicerConfig`]), a thumbnail block (`; thumbnail begin WxH N`, base64
//! continuation comments, `; thumbnail end`), an operational G-code line,
//! or an ignored comment or blank.  A thumbnail only completes when its end
//! marker is seen; any other line aborts it and is parsed normally.

use vstd::prelude::*;

use crate::numbers::{is_digit, spec_is_digit, spec_parse_number, parse_number};
use crate::text::{
    chars_to_string, find_char, find_char_exec, spec_trim, split_lines, split_lines_exec,
    str_chars, subvec, tokenize, tokenize_exec, trim,
};

verus! {

broadcast use vstd::string::group_string_axioms;

/// One operational G-code line: the command word and its parameters.
#[derive(Debug, Clone)]
pub struct GcodeCommand {
    pub cmd: String,
    pub params: Vec<String>,
}

impl GcodeCommand {
    /// Parameter texts as sequences.
    pub open spec fn params_view(self) -> Seq<Seq<char>> {
        self.params@.map_values(|p: String| p@)
    }

    /// Parse one operational line: the text before any `;` comment is
    /// split on spaces (runs collapse); the first token is the command,
    /// the rest are the parameters, verbatim.
    pub fn parse(line: &Vec<char>) -> (r: Option<GcodeCommand>)
        ensures
            ({
                let code = line@.subrange(0, find_char(line@, 0, ';'));
                let toks = tokenize(code);
                match r {
                    Some(c) => toks.len() > 0 && c.cmd@ == toks[0] && c.params_view()
                        == toks.drop_first(),
                    None => toks.len() == 0,
                }
            }),
    {
        let semi = find_char_exec(line, 0, ';');
        let code = subvec(line, 0, semi);
        let toks = tokenize_exec(&code);
        proof {
            assert(toks@.map_values(|l: Vec<char>| l@) == tokenize(code@));
        }
        if toks.len() == 0 {
            return None;
        }
        let cmd = chars_to_string(&toks[0]);
        let mut params: Vec<String> = Vec::new();
        let n = toks.len();
        let mut k: usize = 1;
        while k < n
            invariant
                1 <= k <= n == toks@.len(),
                params@.len() == k - 1,
                forall|j: int| 0 <= j < k - 1 ==> params@[j]@ == toks@[j + 1]@,
            decreases n - k,
        {
            let p = chars_to_string(&toks[k]);
            params.push(p);
            k = k + 1;
        }
        let c = GcodeCommand { cmd, params };
        proof {
            let tviews = toks@.map_values(|l: Vec<char>| l@);
            assert(c.params_view() =~= tviews.drop_first());
        }
        Some(c)
    }
}

/// The slicer that produced the file.
#[derive(Debug, Clone)]
pub struct SlicerInfo {
    pub slicer: Option<String>,
    pub version: Option<String>,
    pub date: Option<String>,
    pub time: Option<String>,
}

/// An embedded preview image: dimensions and decoded bytes.
#[derive(Debug, Clone)]
pub struct Thumbnail {
    pub width: u32,
    pub height: u32,
    /// Decoded image data.
    pub data: Vec<u8>,
}

impl Thumbnail {
    pub fn new(width: u32, height: u32, data: Vec<u8>) -> (t: Thumbnail)
        ensures
            t.width == width,
            t.height == height,
            t.data == data,
    {
        Thumbnail { width, height, data }
    }
}

/// Aggregated slicer metadata.  Filament quantities are fixed-point
/// micro-units; times are seconds.
#[derive(Debug, Clone)]
pub struct Meta {
    pub filament_length_used: Option<i64>,
    pub filament_volume_used: Option<i64>,
    pub filament_weight_used: Option<i64>,
    pub filament_cost: Option<i64>,
    pub total_filament_length_used: Option<i64>,
    pub total_filament_volume_used: Option<i64>,
    pub total_filament_weight_used: Option<i64>,
    pub total_filament_cost: Option<i64>,
    /// Number of layers.
    pub total_layers_count: Option<u32>,
    /// Filament in grams used for the wipe tower.
    pub total_filament_used_wipe_tower: Option<i64>,
    /// Estimated print time in seconds.
    pub estimated_print_time: Option<u64>,
    /// Estimated first-layer print time in seconds.
    pub estimated_first_layer_print_time: Option<u64>,
}

/// Unrecognised `; key = value` slicer-configuration pairs, in file order.
#[derive(Debug, Clone)]
pub struct SlicerConfig {
    pub properties: Vec<(String, String)>,
}

/// A parsed slicer G-code file.
#[derive(Debug, Clone)]
pub struct GcodeFile {
    pub slicer: SlicerInfo,
    pub thumbnails: Vec<Thumbnail>,
    pub meta: Meta,
    pub config: SlicerConfig,
    pub commands: Vec<GcodeCommand>,
}

/// What base64 decoding of these bytes yields, when they are valid
/// standard-alphabet base64.
pub uninterp spec fn base64_decoding(data: Seq<u8>) -> Option<Seq<u8>>;

/// Relies on base64's standard-alphabet engine: decoding is a function of
/// the input bytes alone; an invalid input gives nothing.
#[verifier::external_body]
fn decode_base64(data: &Vec<u8>) -> (r: Option<Vec<u8>>)
    ensures
        match r {
            Some(d) => base64_decoding(data@) == Some(d@),
            None => base64_decoding(data@) is None,
        },
{
    match base64::Engine::decode(&base64::engine::general_purpose::STANDARD, data.as_slice()) {
        Ok(d) => Some(d),
        Err(_) => None,
    }
}

/// A character of the standard base64 alphabet.
pub open spec fn spec_is_base64_char(c: char) -> bool {
    ('A' <= c && c <= 'Z') || ('a' <= c && c <= 'z') || spec_is_digit(c) || c == '+' || c == '/'
        || c == '='
}

fn is_base64_char(c: char) -> (r: bool)
    ensures
        r == spec_is_base64_char(c),
{
    ('A' <= c && c <= 'Z') || ('a' <= c && c <= 'z') || is_digit(c) || c == '+' || c == '/' || c
        == '='
}

/// Seconds denoted by an `<n>h <n>m <n>s` duration expression: every token
/// whose digits are followed by `h`, `m` or `s` adds its scaled value;
/// other tokens add nothing.
pub open spec fn time_token_seconds(t: Seq<char>) -> int {
    if t.len() >= 2 && spec_parse_number(t.subrange(0, t.len() - 1)) is Some {
        let v = spec_parse_number(t.subrange(0, t.len() - 1))->Some_0 as int;
        if v >= 0 && v % 1_000_000 == 0 {
            let whole = v / 1_000_000;
            if t.last() == 'h' {
                whole * 3600
            } else if t.last() == 'm' {
                whole * 60
            } else if t.last() == 's' {
                whole
            } else {
                0
            }
        } else {
            0
        }
    } else {
        0
    }
}

/// Sum of the per-token seconds.
pub open spec fn time_tokens_seconds(toks: Seq<Seq<char>>) -> int
    decreases toks.len(),
{
    if toks.len() == 0 {
        0
    } else {
        time_tokens_seconds(toks.drop_last()) + time_token_seconds(toks.last())
    }
}

/// Parse a duration such as `45m 43s` or `1h 2m 3s` into seconds.
/// Saturates at the unsigned 64-bit limit.
pub fn parse_time_expr(s: &Vec<char>) -> (r: u64)
    ensures
        ({
            let total = time_tokens_seconds(tokenize(s@));
            r as int == if total <= u64::MAX {
                total
            } else {
                u64::MAX as int
            }
        }),
{
    let toks = tokenize_exec(s);
    let ghost tviews = toks@.map_values(|l: Vec<char>| l@);
    let n = toks.len();
    let mut total: u64 = 0;
    let mut sat: bool = false;
    let mut i: usize = 0;
    proof {
        assert(tviews.take(0) =~= Seq::<Seq<char>>::empty());
    }
    while i < n
        invariant
            i <= n == toks@.len(),
            tviews == toks@.map_values(|l: Vec<char>| l@),
            tviews == tokenize(s@),
            ({
                let partial = time_tokens_seconds(tviews.take(i as int));
                if sat {
                    partial > u64::MAX
                } else {
                    total == partial
                }
            }),
        decreases n - i,
    {
        proof {
            assert(tviews.take(i + 1).drop_last() =~= tviews.take(i as int));
            assert(tviews.take(i + 1).last() == tviews[i as int]);
            assert(tviews[i as int] == toks@[i as int]@);
        }
        let t = &toks[i];
        let mut add: u64 = 0;
        if t.len() >= 2 {
            let body = subvec(t, 0, t.len() - 1);
            match parse_number(&body) {
                Some(v) => {
                    if v >= 0 && v % 1_000_000 == 0 {
                        let whole: u64 = (v / 1_000_000) as u64;
                        proof {
                            assert(whole <= 9_223_372_036_854);
                            assert(whole * 3600 <= 9_223_372_036_854u64 * 3600)
                                by (nonlinear_arith)
                                requires
                                    0 <= whole <= 9_223_372_036_854,
                            ;
                            assert(whole * 60 <= whole * 3600) by (nonlinear_arith)
                                requires
                                    whole >= 0,
                            ;
                        }
                        let unit = t[t.len() - 1];
                        if unit == 'h' {
                            add = whole * 3600;
                        } else if unit == 'm' {
                            add = whole * 60;
                        } else if unit == 's' {
                            add = whole;
                        }
                    }
                },
                None => {},
            }
        }
        let ghost token_secs = time_token_seconds(tviews[i as int]);
        proof {
            assert(add as int == token_secs);
            let partial = time_tokens_seconds(tviews.take(i as int));
            let next_partial = time_tokens_seconds(tviews.take(i + 1));
            assert(next_partial == partial + token_secs);
        }
        if !sat {
            if total as u128 + add as u128 > u64::MAX as u128 {
                sat = true;
            } else {
                total = total + add;
            }
        }
        i = i + 1;
    }
    proof {
        assert(tviews.take(n as int) =~= tviews);
    }
    if sat {
        u64::MAX
    } else {
        total
    }
}

/// A whole number read from a literal: the number parser's value when it
/// is a non-negative whole quantity no larger than `bound`.
pub open spec fn spec_whole_number(s: Seq<char>, bound: int) -> Option<int> {
    match spec_parse_number(s) {
        Some(v) => if v >= 0 && v % 1_000_000 == 0 && v / 1_000_000 <= bound {
            Some(v as int / 1_000_000)
        } else {
            None
        },
        None => None,
    }
}

/// Parse a whole number up to `bound`.
pub fn parse_whole(s: &Vec<char>, bound: u64) -> (r: Option<u64>)
    ensures
        match r {
            Some(v) => spec_whole_number(s@, bound as int) == Some(v as int),
            None => spec_whole_number(s@, bound as int) is None,
        },
{
    match parse_number(s) {
        Some(v) => {
            if v >= 0 && v % 1_000_000 == 0 {
                let w: i64 = v / 1_000_000;
                if 0 <= w && w as u64 <= bound {
                    Some(w as u64)
                } else {
                    None
                }
            } else {
                None
            }
        },
        None => None,
    }
}

/// The `WxH` descriptor of a thumbnail: two whole pixel counts around a
/// lower-case `x`.
pub open spec fn spec_dims(t: Seq<char>) -> Option<(int, int)> {
    let i = find_char(t, 0, 'x');
    if 0 <= i < t.len() {
        match (spec_whole_number(t.subrange(0, i), u32::MAX as int), spec_whole_number(
            t.subrange(i + 1, t.len() as int),
            u32::MAX as int,
        )) {
            (Some(w), Some(h)) => Some((w, h)),
            _ => None,
        }
    } else {
        None
    }
}

/// Parse a `WxH` pixel descriptor.
pub fn parse_dims(t: &Vec<char>) -> (r: Option<(u32, u32)>)
    ensures
        match r {
            Some((w, h)) => spec_dims(t@) == Some((w as int, h as int)),
            None => spec_dims(t@) is None,
        },
{
    let i = find_char_exec(t, 0, 'x');
    if i >= t.len() {
        return None;
    }
    let left = subvec(t, 0, i);
    let right = subvec(t, i + 1, t.len());
    match (parse_whole(&left, 0xffff_ffff), parse_whole(&right, 0xffff_ffff)) {
        (Some(w), Some(h)) => Some(((w as u32), (h as u32))),
        _ => None,
    }
}

/// Compare a character vector with a literal.
pub fn eq_chars(a: &Vec<char>, lit: &str) -> (r: bool)
    ensures
        r == (a@ == lit@),
{
    let bv = str_chars(lit);
    if a.len() != bv.len() {
        proof {
            assert(a@.len() != lit@.len());
        }
        return false;
    }
    let n = a.len();
    let mut i: usize = 0;
    while i < n
        invariant
            i <= n == a@.len(),
            n == bv@.len(),
            bv@ == lit@,
            forall|j: int| 0 <= j < i ==> a@[j] == bv@[j],
        decreases n - i,
    {
        if a[i] != bv[i] {
            proof {
                assert(a@[i as int] != lit@[i as int]);
            }
            return false;
        }
        i = i + 1;
    }
    proof {
        assert(a@ =~= lit@);
    }
    true
}

impl Meta {
    /// A metadata record with nothing known.
    pub fn new() -> (m: Meta)
        ensures
            m.filament_length_used is None,
            m.filament_volume_used is None,
            m.filament_weight_used is None,
            m.filament_cost is None,
            m.total_filament_length_used is None,
            m.total_filament_volume_used is None,
            m.total_filament_weight_used is None,
            m.total_filament_cost is None,
            m.total_layers_count is None,
            m.total_filament_used_wipe_tower is None,
            m.estimated_print_time is None,
            m.estimated_first_layer_print_time is None,
    {
        Meta {
            filament_length_used: None,
            filament_volume_used: None,
            filament_weight_used: None,
            filament_cost: None,
            total_filament_length_used: None,
            total_filament_volume_used: None,
            total_filament_weight_used: None,
            total_filament_cost: None,
            total_layers_count: None,
            total_filament_used_wipe_tower: None,
            estimated_print_time: None,
            estimated_first_layer_print_time: None,
        }
    }

    /// Fold one recognised `key = value` pair into the record: quantities
    /// go through the number parser, times through the duration parser,
    /// the layer count must be a whole number.  A value that does not
    /// parse leaves the record unchanged.  Returns whether the key was
    /// recognised.
    pub fn apply_pair(&mut self, key: &Vec<char>, value: &Vec<char>) -> (recognised: bool)
        ensures
            (*final(self), recognised) == spec_apply_meta_pair(*old(self), key@, value@),
    {
        if eq_chars(key, "filament used [mm]") {
            match parse_number(value) {
                Some(v) => self.filament_length_used = Some(v),
                None => {},
            }
            true
        } else if eq_chars(key, "filament used [cm3]") {
            match parse_number(value) {
                Some(v) => self.filament_volume_used = Some(v),
                None => {},
            }
            true
        } else if eq_chars(key, "filament used [g]") {
            match parse_number(value) {
                Some(v) => self.filament_weight_used = Some(v),
                None => {},
            }
            true
        } else if eq_chars(key, "filament cost") {
            match parse_number(value) {
                Some(v) => self.filament_cost = Some(v),
                None => {},
            }
            true
        } else if eq_chars(key, "total filament used [mm]") {
            match parse_number(value) {
                Some(v) => self.total_filament_length_used = Some(v),
                None => {},
            }
            true
        } else if eq_chars(key, "total filament used [cm3]") {
            match parse_number(value) {
                Some(v) => self.total_filament_volume_used = Some(v),
                None => {},
            }
            true
        } else if eq_chars(key, "total filament used [g]") {
            match parse_number(value) {
                Some(v) => self.total_filament_weight_used = Some(v),
                None => {},
            }
            true
        } else if eq_chars(key, "total filament cost") {
            match parse_number(value) {
                Some(v) => self.total_filament_cost = Some(v),
                None => {},
            }
            true
        } else if eq_chars(key, "total layers count") {
            match parse_whole(value, 0xffff_ffff) {
                Some(v) => self.total_layers_count = Some(v as u32),
                None => {},
            }
            true
        } else if eq_chars(key, "total filament used [g] wipe tower") {
            match parse_number(value) {
                Some(v) => self.total_filament_used_wipe_tower = Some(v),
                None => {},
            }
            true
        } else if eq_chars(key, "estimated printing time (normal mode)") {
            self.estimated_print_time = Some(parse_time_expr(value));
            true
        } else if eq_chars(key, "estimated first layer printing time (normal mode)") {
            self.estimated_first_layer_print_time = Some(parse_time_expr(value));
            true
        } else {
            false
        }
    }
}

/// What folding a `key = value` pair into the metadata yields, and
/// whether the key was recognised; the chain mirrors the recognised keys
/// in order.
pub open spec fn spec_apply_meta_pair(m: Meta, key: Seq<char>, value: Seq<char>) -> (
    Meta,
    bool,
) {
    if key == "filament used [mm]"@ {
        (Meta { filament_length_used: or_parsed(m.filament_length_used, value), ..m }, true)
    } else if key == "filament used [cm3]"@ {
        (Meta { filament_volume_used: or_parsed(m.filament_volume_used, value), ..m }, true)
    } else if key == "filament used [g]"@ {
        (Meta { filament_weight_used: or_parsed(m.filament_weight_used, value), ..m }, true)
    } else if key == "filament cost"@ {
        (Meta { filament_cost: or_parsed(m.filament_cost, value), ..m }, true)
    } else if key == "total filament used [mm]"@ {
        (
            Meta {
                total_filament_length_used: or_parsed(m.total_filament_length_used, value),
                ..m
            },
            true,
        )
    } else if key == "total filament used [cm3]"@ {
        (
            Meta {
                total_filament_volume_used: or_parsed(m.total_filament_volume_used, value),
                ..m
            },
            true,
        )
    } else if key == "total filament used [g]"@ {
        (
            Meta {
                total_filament_weight_used: or_parsed(m.total_filament_weight_used, value),
                ..m
            },
            true,
        )
    } else if key == "total filament cost"@ {
        (Meta { total_filament_cost: or_parsed(m.total_filament_cost, value), ..m }, true)
    } else if key == "total layers count"@ {
        (
            Meta {
                total_layers_count: (match spec_whole_number(value, u32::MAX as int) {
                    Some(v) => Some(v as u32),
                    None => m.total_layers_count,
                }),
                ..m
            },
            true,
        )
    } else if key == "total filament used [g] wipe tower"@ {
        (
            Meta {
                total_filament_used_wipe_tower: or_parsed(
                    m.total_filament_used_wipe_tower,
                    value,
                ),
                ..m
            },
            true,
        )
    } else if key == "estimated printing time (normal mode)"@ {
        (Meta { estimated_print_time: Some(sat_time(value)), ..m }, true)
    } else if key == "estimated first layer printing time (normal mode)"@ {
        (Meta { estimated_first_layer_print_time: Some(sat_time(value)), ..m }, true)
    } else {
        (m, false)
    }
}

/// The parsed value when it parses, the old one otherwise.
pub open spec fn or_parsed(old_v: Option<i64>, value: Seq<char>) -> Option<i64> {
    match spec_parse_number(value) {
        Some(v) => Some(v),
        None => old_v,
    }
}

/// The duration a value denotes, saturated at the 64-bit limit.
pub open spec fn sat_time(value: Seq<char>) -> u64 {
    let total = time_tokens_seconds(tokenize(value));
    if total <= u64::MAX {
        total as u64
    } else {
        u64::MAX
    }
}

/// Bind a slicer-configuration property, the last occurrence of a key
/// winning.
fn set_property(props: &mut Vec<(String, String)>, key: &Vec<char>, value: String)
    ensures
        crate::config::pairs_upserted(old(props)@, key@, value, final(props)@),
{
    let key_string = chars_to_string(key);
    let n = props.len();
    let mut i: usize = 0;
    while i < n
        invariant
            i <= n == props@.len(),
            props == old(props),
            key_string@ == key@,
            forall|k: int| 0 <= k < i ==> (#[trigger] props@[k]).0@ != key@,
        decreases n - i,
    {
        if crate::text::str_eq(props[i].0.as_str(), key_string.as_str()) {
            props.set(i, (key_string, value));
            return ;
        }
        i = i + 1;
    }
    props.push((key_string, value));
}

/// The command tokens of a line, when it is operational: empty and
/// comment lines give nothing; otherwise the text before any `;` comment
/// splits into tokens.
pub open spec fn op_tokens(line: Seq<char>) -> Seq<Seq<char>> {
    let t = spec_trim(line);
    if t.len() == 0 || t[0] == ';' {
        Seq::<Seq<char>>::empty()
    } else {
        tokenize(t.subrange(0, find_char(t, 0, ';')))
    }
}

/// The commands of a file: one `(name, parameters)` pair per operational
/// line, in file order.
pub open spec fn commands_of(lines: Seq<Seq<char>>) -> Seq<(Seq<char>, Seq<Seq<char>>)>
    decreases lines.len(),
{
    if lines.len() == 0 {
        Seq::<(Seq<char>, Seq<Seq<char>>)>::empty()
    } else {
        let toks = op_tokens(lines.last());
        commands_of(lines.drop_last()) + if toks.len() > 0 {
            seq![(toks[0], toks.drop_first())]
        } else {
            Seq::<(Seq<char>, Seq<Seq<char>>)>::empty()
        }
    }
}

/// View of a command list as `(name, parameters)` pairs.
pub open spec fn commands_views(cmds: Seq<GcodeCommand>) -> Seq<(Seq<char>, Seq<Seq<char>>)> {
    cmds.map_values(|c: GcodeCommand| (c.cmd@, c.params_view()))
}

/// The comment body of a line, when the trimmed line is a comment: the
/// trimmed text after the `;`.
pub open spec fn spec_comment_body(line: Seq<char>) -> Option<Seq<char>> {
    let t = spec_trim(line);
    if t.len() > 0 && t[0] == ';' {
        Some(spec_trim(t.subrange(1, t.len() as int)))
    } else {
        None
    }
}

/// A non-empty run of base64-alphabet characters: a thumbnail
/// continuation payload.
pub open spec fn spec_is_b64_content(content: Seq<char>) -> bool {
    content.len() > 0 && forall|i: int|
        0 <= i < content.len() ==> spec_is_base64_char(#[trigger] content[i])
}

/// The payload bytes of a continuation line: its characters as bytes.
pub open spec fn spec_b64_payload(content: Seq<char>) -> Seq<u8> {
    Seq::new(content.len(), |i: int| content[i] as u8)
}

/// The dimensions a thumbnail begin marker carries, when the comment body
/// is one: `thumbnail begin WxH N`.
pub open spec fn spec_thumbnail_begin(content: Seq<char>) -> Option<(int, int)> {
    let toks = tokenize(content);
    if toks.len() >= 3 && toks[0] == "thumbnail"@ && toks[1] == "begin"@ {
        spec_dims(toks[2])
    } else {
        None
    }
}

/// The `key = value` reading of a comment line, when it has one: the
/// line must be a comment, must not be a thumbnail begin marker or a
/// slicer header, and must hold an `=`; the key is the trimmed text
/// before the first `=`, the value the trimmed text after it.
pub open spec fn key_value_comment(line: Seq<char>) -> Option<(Seq<char>, Seq<char>)> {
    let t = spec_trim(line);
    if t.len() == 0 || t[0] != ';' {
        None
    } else {
        let content = spec_trim(t.subrange(1, t.len() as int));
        let toks = tokenize(content);
        if toks.len() >= 3 && toks[0] == "thumbnail"@ && toks[1] == "begin"@ {
            None
        } else if toks.len() >= 3 && toks[0] == "generated"@ && toks[1] == "by"@ {
            None
        } else {
            let eqpos = find_char(content, 0, '=');
            if eqpos < content.len() {
                Some(
                    (
                        spec_trim(content.subrange(0, eqpos)),
                        spec_trim(content.subrange(eqpos + 1, content.len() as int)),
                    ),
                )
            } else {
                None
            }
        }
    }
}

/// A thumbnail whose end marker has not arrived yet.
#[derive(Debug, Clone)]
pub struct PendingThumbnail {
    pub width: u32,
    pub height: u32,
    /// Base64 text collected so far, as bytes.
    pub payload: Vec<u8>,
}

/// Line-by-line assembler for a [`GcodeFile`]: feed each line with
/// [`GcodeFileBuilder::push_line`] and close with
/// [`GcodeFileBuilder::finish`].
#[derive(Debug, Clone)]
pub struct GcodeFileBuilder {
    pub file: GcodeFile,
    pub pending: Option<PendingThumbnail>,
}

impl GcodeFileBuilder {
    /// An assembler with nothing read yet.
    pub fn new() -> (b: GcodeFileBuilder)
        ensures
            commands_views(b.file.commands@) == Seq::<(Seq<char>, Seq<Seq<char>>)>::empty(),
            b.pending is None,
    {
        let b = GcodeFileBuilder {
            file: GcodeFile {
                slicer: SlicerInfo { slicer: None, version: None, date: None, time: None },
                thumbnails: Vec::new(),
                meta: Meta::new(),
                config: SlicerConfig { properties: Vec::new() },
                commands: Vec::new(),
            },
            pending: None,
        };
        proof {
            assert(commands_views(b.file.commands@) =~= Seq::<(
                Seq<char>,
                Seq<Seq<char>>,
            )>::empty());
        }
        b
    }

    /// Feed one line.  An operational line appends exactly its command;
    /// comment lines fill the slicer header, the metadata, the slicer
    /// configuration or a thumbnail, and never touch the commands.
    pub fn push_line(&mut self, line: &Vec<char>)
        ensures
            ({
                let toks = op_tokens(line@);
                if toks.len() > 0 {
                    commands_views(final(self).file.commands@) == commands_views(
                        old(self).file.commands@,
                    ) + seq![(toks[0], toks.drop_first())]
                } else {
                    commands_views(final(self).file.commands@) == commands_views(
                        old(self).file.commands@,
                    )
                }
            }),
            spec_trim(line@).len() == 0 ==> final(self).pending is None && final(self).file
                == old(self).file,
            (spec_trim(line@).len() > 0 && spec_trim(line@)[0] != ';') ==> {
                &&& final(self).pending is None
                &&& final(self).file.slicer == old(self).file.slicer
                &&& final(self).file.meta == old(self).file.meta
                &&& final(self).file.config == old(self).file.config
                &&& final(self).file.thumbnails == old(self).file.thumbnails
            },
            ({
                // A begin marker opens a fresh pending thumbnail, whether
                // none was pending or the marker line aborted one.
                let b = spec_comment_body(line@);
                let c = b->Some_0;
                (b is Some && spec_thumbnail_begin(c) is Some && (old(self).pending is None || (
                c != "thumbnail end"@ && !spec_is_b64_content(c)))) ==> ({
                    let (w, h) = spec_thumbnail_begin(c)->Some_0;
                    &&& final(self).pending is Some
                    &&& final(self).pending->Some_0.width == w
                    &&& final(self).pending->Some_0.height == h
                    &&& final(self).pending->Some_0.payload@ == Seq::<u8>::empty()
                    &&& final(self).file == old(self).file
                })
            }),
            ({
                // The end marker completes the pending thumbnail: its
                // payload decodes into a new entry, or, when invalid, the
                // thumbnail is discarded.
                let b = spec_comment_body(line@);
                let c = b->Some_0;
                let p0 = old(self).pending->Some_0;
                (b is Some && c == "thumbnail end"@ && old(self).pending is Some) ==> ({
                    let before = old(self).file.thumbnails@;
                    let after = final(self).file.thumbnails@;
                    &&& final(self).pending is None
                    &&& final(self).file.commands == old(self).file.commands
                    &&& final(self).file.meta == old(self).file.meta
                    &&& final(self).file.config == old(self).file.config
                    &&& final(self).file.slicer == old(self).file.slicer
                    &&& match base64_decoding(p0.payload@) {
                        Some(d) => {
                            &&& after.len() == before.len() + 1
                            &&& after.last().width == p0.width
                            &&& after.last().height == p0.height
                            &&& after.last().data@ == d
                            &&& forall|j: int| 0 <= j < before.len() ==> after[j] == before[j]
                        },
                        None => after == before,
                    }
                })
            }),
            ({
                // A base64 comment continues the pending thumbnail.
                let b = spec_comment_body(line@);
                let c = b->Some_0;
                let p0 = old(self).pending->Some_0;
                (b is Some && old(self).pending is Some && c != "thumbnail end"@
                    && spec_is_b64_content(c)) ==> {
                    &&& final(self).pending is Some
                    &&& final(self).pending->Some_0.width == p0.width
                    &&& final(self).pending->Some_0.height == p0.height
                    &&& final(self).pending->Some_0.payload@ == p0.payload@ + spec_b64_payload(
                        c,
                    )
                    &&& final(self).file == old(self).file
                }
            }),
            ({
                // Anything else aborts the pending thumbnail (and is then
                // read as an ordinary comment).
                let b = spec_comment_body(line@);
                let c = b->Some_0;
                (b is Some && old(self).pending is Some && c != "thumbnail end"@
                    && !spec_is_b64_content(c) && spec_thumbnail_begin(c) is None)
                    ==> final(self).pending is None
            }),
                        ({
                // A slicer header names the producing program and its
                // version.
                let b = spec_comment_body(line@);
                let c = b->Some_0;
                let toks = tokenize(c);
                (b is Some && (old(self).pending is None || (c != "thumbnail end"@
                    && !spec_is_b64_content(c))) && toks.len() >= 3 && toks[0]
                    == "generated"@ && toks[1] == "by"@) ==> {
                    &&& final(self).file.slicer.slicer is Some
                    &&& final(self).file.slicer.slicer->Some_0@ == toks[2]
                    &&& toks.len() >= 4 ==> ({
                        let ver = final(self).file.slicer.version;
                        ver is Some && ver->Some_0@ == toks[3]
                    })
                    &&& final(self).file.commands == old(self).file.commands
                    &&& final(self).file.meta == old(self).file.meta
                    &&& final(self).file.config == old(self).file.config
                    &&& final(self).file.thumbnails == old(self).file.thumbnails
                    &&& final(self).pending is None
                }
            }),
            ({
                // A comment that is none of the special shapes changes
                // nothing (beyond ending any pending thumbnail).
                let b = spec_comment_body(line@);
                let c = b->Some_0;
                let toks = tokenize(c);
                (b is Some && spec_thumbnail_begin(c) is None && !(toks.len() >= 3 && toks[0]
                    == "generated"@ && toks[1] == "by"@) && key_value_comment(line@) is None
                    && (old(self).pending is None || (c != "thumbnail end"@
                    && !spec_is_b64_content(c)))) ==> {
                    &&& final(self).file == old(self).file
                    &&& final(self).pending is None
                }
            }),
            key_value_comment(line@) is Some && (old(self).pending is None || ({
                let c = spec_comment_body(line@)->Some_0;
                c != "thumbnail end"@ && !spec_is_b64_content(c)
            })) ==> ({
                let (key, value) = key_value_comment(line@)->Some_0;
                let (meta, recognised) = spec_apply_meta_pair(old(self).file.meta, key, value);
                &&& final(self).file.slicer == old(self).file.slicer
                &&& final(self).file.thumbnails == old(self).file.thumbnails
                &&& final(self).file.meta == meta
                &&& recognised ==> final(self).file.config == old(self).file.config
                &&& !recognised ==> exists|v: String|
                    v@ == value && crate::config::pairs_upserted(
                        old(self).file.config.properties@,
                        key,
                        v,
                        final(self).file.config.properties@,
                    )
            }),
    {
        let t = trim(line);
        if t.len() == 0 {
            // A blank line aborts a pending thumbnail.
            self.pending = None;
            return;
        }
        if t[0] == ';' {
            let body = subvec(&t, 1, t.len());
            let content = trim(&body);
            if self.pending.is_some() {
                if eq_chars(&content, "thumbnail end") {
                    let pending = self.pending.take().unwrap();
                    match decode_base64(&pending.payload) {
                        Some(data) => {
                            let ghost cv = commands_views(self.file.commands@);
                            self.file.thumbnails.push(
                                Thumbnail {
                                    width: pending.width,
                                    height: pending.height,
                                    data,
                                },
                            );
                            proof {
                                assert(commands_views(self.file.commands@) == cv);
                            }
                        },
                        None => {},
                    }
                    return;
                }
                let mut all_b64 = content.len() > 0;
                let n = content.len();
                let mut i: usize = 0;
                while i < n
                    invariant
                        i <= n == content@.len(),
                        self == old(self),
                        all_b64 == (n > 0 && forall|j: int|
                            0 <= j < i ==> spec_is_base64_char(#[trigger] content@[j])),
                    decreases n - i,
                {
                    if !is_base64_char(content[i]) {
                        all_b64 = false;
                    }
                    i = i + 1;
                }
                if all_b64 {
                    // A base64 comment continues the pending thumbnail.
                    let mut pending = self.pending.take().unwrap();
                    let ghost payload0 = pending.payload@;
                    let ghost width0 = pending.width;
                    let ghost height0 = pending.height;
                    let m = content.len();
                    let mut k: usize = 0;
                    proof {
                        assert(payload0 + spec_b64_payload(content@).take(0) =~= payload0);
                    }
                    while k < m
                        invariant
                            k <= m == content@.len(),
                            forall|j: int|
                                0 <= j < m ==> spec_is_base64_char(#[trigger] content@[j]),
                            pending.width == width0,
                            pending.height == height0,
                            pending.payload@ == payload0 + spec_b64_payload(content@).take(
                                k as int,
                            ),
                        decreases m - k,
                    {
                        let c = content[k];
                        proof {
                            assert(spec_is_base64_char(content@[k as int]));
                            assert((c as u32) < 256);
                        }
                        pending.payload.push((c as u32) as u8);
                        proof {
                            assert(pending.payload@ =~= payload0 + spec_b64_payload(
                                content@,
                            ).take(k + 1));
                        }
                        k = k + 1;
                    }
                    proof {
                        assert(spec_b64_payload(content@).take(m as int) =~= spec_b64_payload(
                            content@,
                        ));
                        assert(spec_is_b64_content(content@)) by {
                            assert(content@.len() > 0);
                            assert(forall|j: int|
                                0 <= j < content@.len() ==> spec_is_base64_char(
                                    #[trigger] content@[j],
                                ));
                        };
                    }
                    self.pending = Some(pending);
                    return;
                }
                // Anything else aborts the thumbnail and is read normally.
                self.pending = None;
            }
            let toks = tokenize_exec(&content);
            if toks.len() >= 3 && eq_chars(&toks[0], "thumbnail") && eq_chars(
                &toks[1],
                "begin",
            ) {
                proof {
                    assert("thumbnail"@ != "generated"@) by {
                        reveal_strlit("thumbnail");
                        reveal_strlit("generated");
                        assert("thumbnail"@[0] == 't');
                        assert("generated"@[0] == 'g');
                    };
                }
                match parse_dims(&toks[2]) {
                    Some((w, h)) => {
                        self.pending = Some(
                            PendingThumbnail { width: w, height: h, payload: Vec::new() },
                        );
                        return;
                    },
                    None => {},
                }
                return;
            }
            if toks.len() >= 3 && eq_chars(&toks[0], "generated") && eq_chars(&toks[1], "by") {
                self.file.slicer.slicer = Some(chars_to_string(&toks[2]));
                if toks.len() >= 4 {
                    self.file.slicer.version = Some(chars_to_string(&toks[3]));
                }
                let ghost slicer0 = self.file.slicer.slicer;
                let ghost version0 = self.file.slicer.version;
                let n2 = toks.len();
                if n2 >= 4 {
                    let mut k: usize = 4;
                    while k < n2
                        invariant
                            4 <= k <= n2 == toks@.len(),
                            self.file.commands == old(self).file.commands,
                            self.file.meta == old(self).file.meta,
                            self.file.config == old(self).file.config,
                            self.file.thumbnails == old(self).file.thumbnails,
                            self.file.slicer.slicer == slicer0,
                            self.file.slicer.version == version0,
                            self.pending is None,
                        decreases n2 - k,
                    {
                        if k + 1 < n2 && eq_chars(&toks[k], "on") {
                            self.file.slicer.date = Some(chars_to_string(&toks[k + 1]));
                        }
                        if k + 1 < n2 && eq_chars(&toks[k], "at") {
                            self.file.slicer.time = Some(chars_to_string(&toks[k + 1]));
                        }
                        k = k + 1;
                    }
                }
                return;
            }
            let eqpos = find_char_exec(&content, 0, '=');
            if eqpos < content.len() {
                let rawkey = subvec(&content, 0, eqpos);
                let key = trim(&rawkey);
                let rawval = subvec(&content, eqpos + 1, content.len());
                let value = trim(&rawval);
                let recognised = self.file.meta.apply_pair(&key, &value);
                if !recognised {
                    let ghost old_props = self.file.config.properties@;
                    let value_string = chars_to_string(&value);
                    let ghost vs = value_string;
                    set_property(&mut self.file.config.properties, &key, value_string);
                    proof {
                        if key_value_comment(line@) is Some {
                            let (k, v) = key_value_comment(line@)->Some_0;
                            assert(key@ == k);
                            assert(vs@ == v);
                            assert(crate::config::pairs_upserted(
                                old_props,
                                k,
                                vs,
                                self.file.config.properties@,
                            ));
                        }
                    }
                }
            }
            return;
        }
        // An operational line aborts any pending thumbnail.
        self.pending = None;
        match GcodeCommand::parse(&t) {
            Some(c) => {
                let ghost oldviews = commands_views(self.file.commands@);
                let ghost cpair = (c.cmd@, c.params_view());
                self.file.commands.push(c);
                proof {
                    assert(commands_views(self.file.commands@) =~= oldviews + seq![cpair]);
                }
            },
            None => {},
        }
    }

    /// Close the file: a thumbnail still pending is discarded.
    pub fn finish(self) -> (f: GcodeFile)
        ensures
            f == self.file,
    {
        self.file
    }
}

impl GcodeFile {
    /// Parse a whole file held in memory: every line through the
    /// line-level grammar.  The commands are exactly those of the
    /// operational lines, in order.
    pub fn parse(input: &str) -> (f: GcodeFile)
        ensures
            commands_views(f.commands@) == commands_of(split_lines(input@)),
    {
        let chars = str_chars(input);
        let lines = split_lines_exec(&chars);
        let ghost lviews = lines@.map_values(|l: Vec<char>| l@);
        let mut b = GcodeFileBuilder::new();
        let n = lines.len();
        let mut i: usize = 0;
        proof {
            assert(lviews.take(0) =~= Seq::<Seq<char>>::empty());
        }
        while i < n
            invariant
                i <= n == lines@.len(),
                lviews == lines@.map_values(|l: Vec<char>| l@),
                lviews == split_lines(chars@),
                chars@ == input@,
                commands_views(b.file.commands@) == commands_of(lviews.take(i as int)),
            decreases n - i,
        {
            proof {
                assert(lviews.take(i + 1).drop_last() =~= lviews.take(i as int));
                assert(lviews.take(i + 1).last() == lviews[i as int]);
                assert(lviews[i as int] == lines@[i as int]@);
            }
            b.push_line(&lines[i]);
            i = i + 1;
        }
        proof {
            assert(lviews.take(n as int) =~= lviews);
        }
        b.finish()
    }
}

} // verus!
