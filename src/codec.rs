//! The wire codec: a command and its request id become one JSON object on a
//! line of its own; an incoming line becomes a reply, an unrelated message,
//! or a decode error.
use vstd::prelude::*;
use crate::json::{
    decimal, json_quoted, lemma_uint_of_decimal, number_json, parse_json, parsed_json, quote_json,
    uint_of_number, uint_of_text, Json,
};
use crate::values::{Brightness, Color, Effect, TransitionDuration};

verus! {

/// One parameter of a command, already in the form the device expects.
pub enum Param {
    Int(u64),
    Bool(bool),
    Text(String),
}

pub enum ParamView {
    Int(u64),
    Bool(bool),
    Text(Seq<char>),
}

impl View for Param {
    type V = ParamView;

    open spec fn view(&self) -> ParamView {
        match self {
            Param::Int(n) => ParamView::Int(*n),
            Param::Bool(b) => ParamView::Bool(*b),
            Param::Text(s) => ParamView::Text(s@),
        }
    }
}

pub open spec fn params_view(ps: Seq<Param>) -> Seq<ParamView> {
    ps.map_values(|p: Param| p@)
}

/// A method name and its ordered parameters.
pub struct Command {
    pub method: String,
    pub params: Vec<Param>,
}

pub struct CommandView {
    pub method: Seq<char>,
    pub params: Seq<ParamView>,
}

impl View for Command {
    type V = CommandView;

    open spec fn view(&self) -> CommandView {
        CommandView { method: self.method@, params: params_view(self.params@) }
    }
}

/// A reply to a request: its id and its result strings.
pub struct Reply {
    pub id: u64,
    pub result: Vec<String>,
}

pub open spec fn texts_view(ss: Seq<String>) -> Seq<Seq<char>> {
    ss.map_values(|s: String| s@)
}

impl View for Reply {
    type V = (u64, Seq<Seq<char>>);

    open spec fn view(&self) -> (u64, Seq<Seq<char>>) {
        (self.id, texts_view(self.result@))
    }
}

/// What one incoming line holds.
pub enum Inbound {
    Reply(Reply),
    /// Valid JSON of another shape: a notification from the device.
    Opaque,
}

impl View for Inbound {
    type V = Option<(u64, Seq<Seq<char>>)>;

    open spec fn view(&self) -> Option<(u64, Seq<Seq<char>>)> {
        match self {
            Inbound::Reply(r) => Some(r@),
            Inbound::Opaque => None,
        }
    }
}

/// An incoming line that is not JSON at all.
#[derive(Clone, Copy, PartialEq, Eq, Structural, Debug)]
pub enum DecodeError {
    Malformed,
}

// ---------------------------------------------------------------- encoding

pub open spec fn effect_token(e: Effect) -> Seq<char> {
    match e {
        Effect::Sudden => "sudden"@,
        Effect::Smooth => "smooth"@,
    }
}

pub open spec fn color_method(c: Color) -> Seq<char> {
    match c {
        Color::Rgb(_, _, _) => "set_rgb"@,
        Color::Temp(_) => "set_ct_abx"@,
        Color::Hsv(_, _) => "set_hsv"@,
    }
}

pub open spec fn bg_color_method(c: Color) -> Seq<char> {
    match c {
        Color::Rgb(_, _, _) => "bg_set_rgb"@,
        Color::Temp(_) => "bg_set_ct_abx"@,
        Color::Hsv(_, _) => "bg_set_hsv"@,
    }
}

/// Red, green and blue packed into one integer.
pub open spec fn packed_rgb(r: u8, g: u8, b: u8) -> u64 {
    ((r as u64) * 65536 + (g as u64) * 256 + (b as u64)) as u64
}

/// The parameters that carry a colour: one packed integer, a temperature
/// three times, or hue then saturation.
pub open spec fn color_values(c: Color) -> Seq<ParamView> {
    match c {
        Color::Rgb(r, g, b) => seq![ParamView::Int(packed_rgb(r, g, b))],
        Color::Temp(t) => seq![ParamView::Int(t as u64), ParamView::Int(t as u64), ParamView::Int(t as u64)],
        Color::Hsv(h, s) => seq![ParamView::Int(h as u64), ParamView::Int(s as u64)],
    }
}

/// The two parameters that every transition command ends with.
pub open spec fn transition_tail(effect: Effect, duration: u32) -> Seq<ParamView> {
    seq![ParamView::Text(effect_token(effect)), ParamView::Int(duration as u64)]
}

fn effect_param(effect: Effect) -> (r: Param)
    ensures
        r@ == ParamView::Text(effect_token(effect)),
{
    match effect {
        Effect::Sudden => Param::Text(String::from_str("sudden")),
        Effect::Smooth => Param::Text(String::from_str("smooth")),
    }
}

/// `values` followed by the effect token and the duration.
fn with_transition(values: Vec<Param>, effect: Effect, duration: &TransitionDuration) -> (r: Vec<
    Param,
>)
    ensures
        params_view(r@) == params_view(values@) + transition_tail(effect, duration@),
{
    let mut ps = values;
    ps.push(effect_param(effect));
    ps.push(Param::Int(duration.as_u32() as u64));
    assert(params_view(ps@) =~= params_view(values@) + transition_tail(effect, duration@));
    ps
}

fn color_params(color: Color) -> (r: Vec<Param>)
    ensures
        params_view(r@) == color_values(color),
{
    let r = match color {
        Color::Rgb(red, green, blue) => vec![
            Param::Int(red as u64 * 65536 + green as u64 * 256 + blue as u64),
        ],
        Color::Temp(t) => vec![Param::Int(t as u64), Param::Int(t as u64), Param::Int(t as u64)],
        Color::Hsv(h, s) => vec![Param::Int(h as u64), Param::Int(s as u64)],
    };
    assert(params_view(r@) =~= color_values(color));
    r
}

impl Command {
    pub fn new(method: String, params: Vec<Param>) -> (r: Command)
        ensures
            r.method == method,
            r.params == params,
    {
        Command { method, params }
    }

    /// Sets the main light's colour.
    pub fn set_color(color: Color, effect: Effect, duration: TransitionDuration) -> (r: Command)
        ensures
            r@.method == color_method(color),
            r@.params == color_values(color) + transition_tail(effect, duration@),
    {
        let method = match color {
            Color::Rgb(_, _, _) => String::from_str("set_rgb"),
            Color::Temp(_) => String::from_str("set_ct_abx"),
            Color::Hsv(_, _) => String::from_str("set_hsv"),
        };
        Command { method, params: with_transition(color_params(color), effect, &duration) }
    }

    /// Sets the background light's colour.
    pub fn bg_set_color(color: Color, effect: Effect, duration: TransitionDuration) -> (r: Command)
        ensures
            r@.method == bg_color_method(color),
            r@.params == color_values(color) + transition_tail(effect, duration@),
    {
        let method = match color {
            Color::Rgb(_, _, _) => String::from_str("bg_set_rgb"),
            Color::Temp(_) => String::from_str("bg_set_ct_abx"),
            Color::Hsv(_, _) => String::from_str("bg_set_hsv"),
        };
        Command { method, params: with_transition(color_params(color), effect, &duration) }
    }

    /// Sets the main light's brightness.
    pub fn set_bright(brightness: Brightness, effect: Effect, duration: TransitionDuration) -> (r:
        Command)
        ensures
            r@.method == "set_bright"@,
            r@.params == seq![ParamView::Int(brightness@ as u64)] + transition_tail(
                effect,
                duration@,
            ),
    {
        let values = vec![Param::Int(brightness.as_u32() as u64)];
        let params = with_transition(values, effect, &duration);
        proof {
            assert(params_view(values@) =~= seq![ParamView::Int(brightness@ as u64)]);
        }
        Command { method: String::from_str("set_bright"), params }
    }

    /// Sets the background light's brightness.
    pub fn bg_set_bright(
        brightness: Brightness,
        effect: Effect,
        duration: TransitionDuration,
    ) -> (r: Command)
        ensures
            r@.method == "bg_set_bright"@,
            r@.params == seq![ParamView::Int(brightness@ as u64)] + transition_tail(
                effect,
                duration@,
            ),
    {
        let values = vec![Param::Int(brightness.as_u32() as u64)];
        let params = with_transition(values, effect, &duration);
        proof {
            assert(params_view(values@) =~= seq![ParamView::Int(brightness@ as u64)]);
        }
        Command { method: String::from_str("bg_set_bright"), params }
    }

    /// Switches the main light on or off.
    pub fn set_power(on: bool, effect: Effect, duration: TransitionDuration) -> (r: Command)
        ensures
            r@.method == "set_power"@,
            r@.params == seq![ParamView::Text(power_token(on))] + transition_tail(
                effect,
                duration@,
            ),
    {
        let values = vec![power_param(on)];
        let params = with_transition(values, effect, &duration);
        proof {
            assert(params_view(values@) =~= seq![ParamView::Text(power_token(on))]);
        }
        Command { method: String::from_str("set_power"), params }
    }

    /// Switches the background light on or off.
    pub fn bg_set_power(on: bool, effect: Effect, duration: TransitionDuration) -> (r: Command)
        ensures
            r@.method == "bg_set_power"@,
            r@.params == seq![ParamView::Text(power_token(on))] + transition_tail(
                effect,
                duration@,
            ),
    {
        let values = vec![power_param(on)];
        let params = with_transition(values, effect, &duration);
        proof {
            assert(params_view(values@) =~= seq![ParamView::Text(power_token(on))]);
        }
        Command { method: String::from_str("bg_set_power"), params }
    }
}

pub open spec fn power_token(on: bool) -> Seq<char> {
    if on {
        "on"@
    } else {
        "off"@
    }
}

fn power_param(on: bool) -> (r: Param)
    ensures
        r@ == ParamView::Text(power_token(on)),
{
    if on {
        Param::Text(String::from_str("on"))
    } else {
        Param::Text(String::from_str("off"))
    }
}

/// The JSON text of one parameter.
pub open spec fn param_text(p: ParamView) -> Seq<char> {
    match p {
        ParamView::Int(n) => decimal(n as nat),
        ParamView::Bool(b) => if b {
            "true"@
        } else {
            "false"@
        },
        ParamView::Text(s) => json_quoted(s),
    }
}

/// The parameters' JSON texts, separated by commas.
pub open spec fn params_text(ps: Seq<ParamView>) -> Seq<char>
    decreases ps.len(),
{
    if ps.len() == 0 {
        Seq::empty()
    } else if ps.len() == 1 {
        param_text(ps[0])
    } else {
        params_text(ps.drop_last()) + ","@ + param_text(ps.last())
    }
}

/// The line that carries command `c` under request id `id`.
pub open spec fn envelope_text(id: u64, c: CommandView) -> Seq<char> {
    "{\"id\":"@ + decimal(id as nat) + ",\"method\":"@ + json_quoted(c.method) + ",\"params\":["@
        + params_text(c.params) + "]}\r\n"@
}

fn write_param(out: &mut String, p: &Param)
    ensures
        final(out)@ == old(out)@ + param_text(p@),
{
    match p {
        Param::Int(n) => {
            let t = number_json(*n);
            out.append(t.as_str());
        },
        Param::Bool(b) => {
            if *b {
                out.append("true");
            } else {
                out.append("false");
            }
        },
        Param::Text(s) => {
            let t = quote_json(s.as_str());
            out.append(t.as_str());
        },
    }
}

/// Encodes command `cmd` under request id `id` as one line of the wire
/// protocol.
pub fn encode(id: u64, cmd: &Command) -> (r: String)
    ensures
        r@ == envelope_text(id, cmd@),
{
    let ghost ps = params_view(cmd.params@);
    let mut out = String::from_str("{\"id\":");
    let idt = number_json(id);
    out.append(idt.as_str());
    out.append(",\"method\":");
    let m = quote_json(cmd.method.as_str());
    out.append(m.as_str());
    out.append(",\"params\":[");
    let ghost head = out@;
    let n = cmd.params.len();
    let mut i: usize = 0;
    while i < n
        invariant
            n == cmd.params@.len(),
            ps == params_view(cmd.params@),
            0 <= i <= n,
            out@ == head + params_text(ps.subrange(0, i as int)),
        decreases n - i,
    {
        if i > 0 {
            out.append(",");
        }
        write_param(&mut out, &cmd.params[i]);
        proof {
            let next = ps.subrange(0, i as int + 1);
            assert(next.drop_last() =~= ps.subrange(0, i as int));
            assert(next.last() == cmd.params@[i as int]@);
            if i == 0 {
                assert(ps.subrange(0, 0) =~= Seq::<ParamView>::empty());
            }
        }
        i = i + 1;
    }
    out.append("]}\r\n");
    proof {
        assert(ps.subrange(0, n as int) =~= ps);
    }
    out
}


// ---------------------------------------------------------------- decoding

/// `b` without its line terminator: a final `\n`, then a final `\r`.
pub open spec fn strip_terminator(b: Seq<u8>) -> Seq<u8> {
    let b1 = if b.len() > 0 && b.last() == 10u8 {
        b.drop_last()
    } else {
        b
    };
    if b1.len() > 0 && b1.last() == 13u8 {
        b1.drop_last()
    } else {
        b1
    }
}

/// The value of the first member named `key`.
pub open spec fn member(fields: Seq<(String, Json)>, key: Seq<char>) -> Option<Json>
    decreases fields.len(),
{
    if fields.len() == 0 {
        None
    } else if fields[0].0@ == key {
        Some(fields[0].1)
    } else {
        member(fields.drop_first(), key)
    }
}

pub open spec fn is_text(j: Json) -> bool {
    j is Text
}

pub open spec fn text_view(j: Json) -> Seq<char> {
    match j {
        Json::Text(s) => s@,
        _ => Seq::empty(),
    }
}

/// The strings of an array whose items are all strings.
pub open spec fn texts_of(items: Seq<Json>) -> Option<Seq<Seq<char>>> {
    if forall|i: int| 0 <= i < items.len() ==> is_text(#[trigger] items[i]) {
        Some(items.map_values(|j: Json| text_view(j)))
    } else {
        None
    }
}

/// The id and result of a value of the reply's shape: an object whose `id`
/// is an unsigned integer and whose `result` is an array of strings.
pub open spec fn reply_of_json(j: Json) -> Option<(u64, Seq<Seq<char>>)> {
    match j {
        Json::Object(fields) => match (member(fields@, "id"@), member(fields@, "result"@)) {
            (Some(Json::Number(t)), Some(Json::Array(items))) => match (
                uint_of_text(t@),
                texts_of(items@),
            ) {
                (Some(id), Some(rs)) => Some((id, rs)),
                _ => None,
            },
            _ => None,
        },
        _ => None,
    }
}

/// What decoding a line gives: a decode error where it is not JSON,
/// otherwise the reply it holds, or `None` for any other shape.
pub open spec fn decoded_line(b: Seq<u8>) -> Result<Option<(u64, Seq<Seq<char>>)>, DecodeError> {
    match parsed_json(strip_terminator(b)) {
        None => Err(DecodeError::Malformed),
        Some(j) => Ok(reply_of_json(j)),
    }
}

fn find_member<'a>(fields: &'a Vec<(String, Json)>, key: &str) -> (r: Option<&'a Json>)
    ensures
        match r {
            Some(j) => member(fields@, key@) == Some(*j),
            None => member(fields@, key@) is None,
        },
{
    let k = String::from_str(key);
    let n = fields.len();
    let mut i: usize = 0;
    assert(fields@.subrange(0, n as int) =~= fields@);
    while i < n
        invariant
            n == fields@.len(),
            0 <= i <= n,
            k@ == key@,
            member(fields@, key@) == member(fields@.subrange(i as int, n as int), key@),
        decreases n - i,
    {
        let ghost rest = fields@.subrange(i as int, n as int);
        assert(rest.drop_first() =~= fields@.subrange(i as int + 1, n as int));
        assert(rest[0] == fields@[i as int]);
        if fields[i].0 == k {
            return Some(&fields[i].1);
        }
        i = i + 1;
    }
    None
}

/// The strings of `items`, where all of them are strings.
fn collect_texts(items: &Vec<Json>) -> (r: Option<Vec<String>>)
    ensures
        match r {
            Some(v) => texts_of(items@) == Some(texts_view(v@)),
            None => texts_of(items@) is None,
        },
{
    let mut out: Vec<String> = Vec::new();
    let n = items.len();
    let mut i: usize = 0;
    while i < n
        invariant
            n == items@.len(),
            0 <= i <= n,
            out@.len() == i,
            forall|k: int| 0 <= k < i ==> is_text(#[trigger] items@[k]),
            forall|k: int| 0 <= k < i ==> #[trigger] out@[k]@ == text_view(items@[k]),
        decreases n - i,
    {
        match &items[i] {
            Json::Text(s) => {
                out.push(s.clone());
            },
            _ => {
                assert(!is_text(items@[i as int]));
                return None;
            },
        }
        i = i + 1;
    }
    assert(texts_view(out@) =~= items@.map_values(|j: Json| text_view(j)));
    Some(out)
}

/// The reply that `j` holds, where it has the reply's shape.
pub fn reply_from_json(j: &Json) -> (r: Option<Reply>)
    ensures
        match r {
            Some(rep) => reply_of_json(*j) == Some(rep@),
            None => reply_of_json(*j) is None,
        },
{
    match j {
        Json::Object(fields) => {
            let id_value = find_member(fields, "id");
            let result_value = find_member(fields, "result");
            match (id_value, result_value) {
                (Some(Json::Number(t)), Some(Json::Array(items))) => {
                    let id = uint_of_number(t);
                    let texts = collect_texts(items);
                    match (id, texts) {
                        (Some(id), Some(result)) => Some(Reply { id, result }),
                        _ => None,
                    }
                },
                _ => None,
            }
        },
        _ => None,
    }
}

/// Decodes one incoming line: a reply, another JSON message, or a decode
/// error where the line is not JSON.
pub fn decode_line(line: &[u8]) -> (r: Result<Inbound, DecodeError>)
    ensures
        match r {
            Ok(m) => decoded_line(line@) == Ok::<_, DecodeError>(m@),
            Err(e) => decoded_line(line@) == Err::<Option<(u64, Seq<Seq<char>>)>, _>(e),
        },
{
    let mut n = line.len();
    if n > 0 && line[n - 1] == 10u8 {
        n = n - 1;
    }
    if n > 0 && line[n - 1] == 13u8 {
        n = n - 1;
    }
    let body = &line[0..n];
    assert(body@ =~= strip_terminator(line@));
    match parse_json(body) {
        None => Err(DecodeError::Malformed),
        Some(j) => match reply_from_json(&j) {
            Some(rep) => Ok(Inbound::Reply(rep)),
            None => Ok(Inbound::Opaque),
        },
    }
}

// ---------------------------------------------------------------- envelopes

/// The parameter that a JSON scalar stands for: an unsigned integer, a
/// boolean or a string.
pub open spec fn param_of_json(j: Json) -> Option<ParamView> {
    match j {
        Json::Number(t) => match uint_of_text(t@) {
            Some(n) => Some(ParamView::Int(n)),
            None => None,
        },
        Json::Bool(b) => Some(ParamView::Bool(b)),
        Json::Text(s) => Some(ParamView::Text(s@)),
        _ => None,
    }
}

pub open spec fn param_or_zero(j: Json) -> ParamView {
    match param_of_json(j) {
        Some(p) => p,
        None => ParamView::Int(0),
    }
}

/// The parameters of an array whose items all stand for parameters.
pub open spec fn params_of_json(items: Seq<Json>) -> Option<Seq<ParamView>> {
    if forall|i: int| 0 <= i < items.len() ==> (#[trigger] param_of_json(items[i])) is Some {
        Some(items.map_values(|j: Json| param_or_zero(j)))
    } else {
        None
    }
}

/// The request id and command of a value of the envelope's shape: an object
/// with an unsigned integer `id`, a string `method` and an array `params`.
pub open spec fn envelope_of_json(j: Json) -> Option<(u64, CommandView)> {
    match j {
        Json::Object(fields) => match (
            member(fields@, "id"@),
            member(fields@, "method"@),
            member(fields@, "params"@),
        ) {
            (Some(Json::Number(t)), Some(Json::Text(m)), Some(Json::Array(items))) => match (
                uint_of_text(t@),
                params_of_json(items@),
            ) {
                (Some(id), Some(ps)) => Some((id, CommandView { method: m@, params: ps })),
                _ => None,
            },
            _ => None,
        },
        _ => None,
    }
}

pub open spec fn decoded_envelope(b: Seq<u8>) -> Option<(u64, CommandView)> {
    match parsed_json(strip_terminator(b)) {
        None => None,
        Some(j) => envelope_of_json(j),
    }
}

fn param_from_json(j: &Json) -> (r: Option<Param>)
    ensures
        match r {
            Some(p) => param_of_json(*j) == Some(p@),
            None => param_of_json(*j) is None,
        },
{
    match j {
        Json::Number(t) => match uint_of_number(t) {
            Some(n) => Some(Param::Int(n)),
            None => None,
        },
        Json::Bool(b) => Some(Param::Bool(*b)),
        Json::Text(s) => Some(Param::Text(s.clone())),
        _ => None,
    }
}

fn params_from_json(items: &Vec<Json>) -> (r: Option<Vec<Param>>)
    ensures
        match r {
            Some(v) => params_of_json(items@) == Some(params_view(v@)),
            None => params_of_json(items@) is None,
        },
{
    let mut out: Vec<Param> = Vec::new();
    let n = items.len();
    let mut i: usize = 0;
    while i < n
        invariant
            n == items@.len(),
            0 <= i <= n,
            out@.len() == i,
            forall|k: int| 0 <= k < i ==> (#[trigger] param_of_json(items@[k])) is Some,
            forall|k: int| 0 <= k < i ==> #[trigger] out@[k]@ == param_or_zero(items@[k]),
        decreases n - i,
    {
        match param_from_json(&items[i]) {
            Some(p) => {
                out.push(p);
            },
            None => {
                return None;
            },
        }
        i = i + 1;
    }
    assert(params_view(out@) =~= items@.map_values(|j: Json| param_or_zero(j)));
    Some(out)
}

/// Decodes a line written by `encode` back into its request id and command.
pub fn decode_envelope(line: &[u8]) -> (r: Option<(u64, Command)>)
    ensures
        match r {
            Some((id, c)) => decoded_envelope(line@) == Some((id, c@)),
            None => decoded_envelope(line@) is None,
        },
{
    let mut n = line.len();
    if n > 0 && line[n - 1] == 10u8 {
        n = n - 1;
    }
    if n > 0 && line[n - 1] == 13u8 {
        n = n - 1;
    }
    let body = &line[0..n];
    assert(body@ =~= strip_terminator(line@));
    let j = match parse_json(body) {
        None => {
            return None;
        },
        Some(j) => j,
    };
    match &j {
        Json::Object(fields) => {
            let id_value = find_member(fields, "id");
            let method_value = find_member(fields, "method");
            let params_value = find_member(fields, "params");
            match (id_value, method_value, params_value) {
                (Some(Json::Number(t)), Some(Json::Text(m)), Some(Json::Array(items))) => {
                    match (uint_of_number(t), params_from_json(items)) {
                        (Some(id), Some(params)) => Some(
                            (id, Command { method: m.clone(), params }),
                        ),
                        _ => None,
                    }
                },
                _ => None,
            }
        },
        _ => None,
    }
}

/// JSON value `j` is written exactly as `p` is in an envelope.
pub open spec fn json_stands_for(j: Json, p: ParamView) -> bool {
    match p {
        ParamView::Int(n) => j matches Json::Number(t) && t@ == decimal(n as nat),
        ParamView::Bool(b) => j == Json::Bool(b),
        ParamView::Text(s) => j matches Json::Text(x) && x@ == s,
    }
}

/// `j` is the object that `envelope_text(id, c)` writes: the members `id`,
/// `method` and `params`, with the values as written.
pub open spec fn is_envelope_json(j: Json, id: u64, c: CommandView) -> bool {
    match j {
        Json::Object(fields) => {
            &&& fields@.len() == 3
            &&& fields@[0].0@ == "id"@
            &&& fields@[1].0@ == "method"@
            &&& fields@[2].0@ == "params"@
            &&& match (fields@[0].1, fields@[1].1, fields@[2].1) {
                (Json::Number(t), Json::Text(m), Json::Array(items)) => {
                    &&& t@ == decimal(id as nat)
                    &&& m@ == c.method
                    &&& items@.len() == c.params.len()
                    &&& forall|i: int|
                        0 <= i < items@.len() ==> json_stands_for(#[trigger] items@[i], c.params[i])
                },
                _ => false,
            }
        },
        _ => false,
    }
}

/// Decoding inverts encoding: from the JSON object that an envelope line
/// writes, decoding takes back the request id, the method name and the
/// parameter list unchanged.
pub proof fn envelope_round_trip(j: Json, id: u64, c: CommandView)
    requires
        is_envelope_json(j, id, c),
    ensures
        envelope_of_json(j) == Some((id, c)),
{
    let fields = j->Object_0;
    let items = fields@[2].1->Array_0;
    let f = fields@;
    assert(f.drop_first()[0] == f[1]);
    assert(f.drop_first().drop_first()[0] == f[2]);
    assert("id"@ != "method"@) by {
        reveal_strlit("id");
        reveal_strlit("method");
        assert("id"@.len() != "method"@.len());
    }
    assert("id"@ != "params"@) by {
        reveal_strlit("id");
        reveal_strlit("params");
        assert("id"@.len() != "params"@.len());
    }
    assert("method"@ != "params"@) by {
        reveal_strlit("method");
        reveal_strlit("params");
        assert("method"@[0] != "params"@[0]);
    }
    assert(member(f, "id"@) == Some(f[0].1));
    assert(member(f.drop_first(), "method"@) == Some(f[1].1));
    assert(member(f, "method"@) == Some(f[1].1));
    assert(member(f.drop_first().drop_first(), "params"@) == Some(f[2].1));
    assert(member(f.drop_first(), "params"@) == Some(f[2].1));
    assert(member(f, "params"@) == Some(f[2].1));
    lemma_uint_of_decimal(id as nat);
    assert forall|i: int| 0 <= i < items@.len() implies (#[trigger] param_of_json(items@[i]))
        == Some(c.params[i]) by {
        if let ParamView::Int(n) = c.params[i] {
            lemma_uint_of_decimal(n as nat);
        }
    }
    assert(items@.map_values(|x: Json| param_or_zero(x)) =~= c.params);
}

} // verus!
