//! Dockerfile parsing: logical lines (with `\` continuations), comments, and the
//! parameters of every instruction.

use vstd::prelude::*;
use crate::docker::errors::DockerResult;
use crate::docker::instructions::{
    DockerfileInstruction, InstrView, InstructionKind, KindView, instrs_view, opt_view, pairs_view,
};
use crate::yaml::{Position, Span};
use crate::docker::scan::{
    text_lines, CharClass, eq_ascii_ci, eq_ignore_ascii_case_chars, first_in, find_in, has_prefix, has_suffix,
    parse_usize_chars, parse_usize_spec, slice_chars, split_at_char, split_chars_at,
    split_once_by, split_once_chars, split_tokens, starts_with_chars, strip_prefix_all,
    strip_prefix_all_chars, same_chars, tokens, trim_by, trim_chars, trim_end_by, trim_end_chars, trim_ws,
};
use crate::text::{chars_of, str_eq, str_to_uppercase, string_from_chars, uppercase, view_lines};

verus! {

/// A text as a `String`.
fn text_of(v: &Vec<char>) -> (r: String)
    ensures
        r@ == v@,
{
    string_from_chars(v.as_slice())
}

/// Texts as `String`s.
fn texts_of(vs: &Vec<Vec<char>>) -> (r: Vec<String>)
    ensures
        view_lines(r@) == vs@.map_values(|v: Vec<char>| v@),
{
    let mut out: Vec<String> = Vec::new();
    let mut i: usize = 0;
    while i < vs.len()
        invariant
            i <= vs.len(),
            view_lines(out@) == vs@.take(i as int).map_values(|v: Vec<char>| v@),
        decreases vs.len() - i,
    {
        let s = text_of(&vs[i]);
        assert(s@ == vs@[i as int]@);
        let ghost prev = out@;
        out.push(s);
        proof {
            crate::text::lemma_view_push(prev, s);
            assert(vs@.take(i + 1).map_values(|v: Vec<char>| v@) =~= vs@.take(i as int).map_values(
                |v: Vec<char>| v@,
            ).push(vs@[i as int]@));
        }
        i = i + 1;
    }
    assert(vs@.take(vs.len() as int) =~= vs@);
    out
}

/// The characters of a literal.
fn lit(s: &str) -> (r: Vec<char>)
    ensures
        r@ == s@,
{
    chars_of(s)
}

// ---------------------------------------------------------------------------
// FROM

/// The `FROM` parameters found scanning tokens from index `i`, with the platform
/// and image found before it: `--platform=` flags set the platform, the first other
/// token is the image, and a later `AS` (any case) followed by a token names the stage.
pub open spec fn from_scan(ts: Seq<Seq<char>>, i: int, platform: Option<Seq<char>>, image: Seq<char>) -> KindView
    decreases ts.len() - i,
{
    if i < 0 || i >= ts.len() {
        KindView::From { image, platform, stage_alias: None }
    } else {
        let p = ts[i];
        if has_prefix(p, "--platform="@) {
            from_scan(ts, i + 1, Some(strip_prefix_all(p, "--platform="@)), image)
        } else if image.len() == 0 {
            from_scan(ts, i + 1, platform, p)
        } else if eq_ascii_ci(p, "AS"@) && i + 1 < ts.len() {
            KindView::From { image, platform, stage_alias: Some(ts[i + 1]) }
        } else {
            from_scan(ts, i + 1, platform, image)
        }
    }
}

/// `FROM` parameters of an argument text.
pub open spec fn from_spec(payload: Seq<char>) -> KindView {
    from_scan(tokens(payload), 0, None, Seq::empty())
}

/// The platform flag prefix of `FROM`.
pub open spec fn platform_flag() -> Seq<char> {
    "--platform="@
}

/// What a `FROM` reading of tokens `ts` must satisfy: the image never carries the
/// platform flag and is the first token without it (all tokens before it carry the
/// flag or are empty); no image means no such token; a platform, when found, is
/// the text after the flag of some flagged token; and a first flagged token always
/// gives a platform.
pub open spec fn from_fields_ok(ts: Seq<Seq<char>>, r: KindView) -> bool {
    match r {
        KindView::From { image, platform, .. } => {
            &&& !has_prefix(image, platform_flag())
            &&& image.len() > 0 ==> exists|k: int|
                0 <= k < ts.len() && ts[k] == image && forall|j: int|
                    0 <= j < k ==> has_prefix(#[trigger] ts[j], platform_flag()) || ts[j].len() == 0
            &&& image.len() == 0 ==> forall|j: int|
                0 <= j < ts.len() ==> has_prefix(#[trigger] ts[j], platform_flag()) || ts[j].len() == 0
            &&& platform matches Some(x) ==> exists|k: int|
                0 <= k < ts.len() && has_prefix(ts[k], platform_flag()) && x == strip_prefix_all(
                    #[trigger] ts[k],
                    platform_flag(),
                )
            &&& ts.len() > 0 && has_prefix(ts[0], platform_flag()) ==> platform is Some
        },
        _ => false,
    }
}

proof fn lemma_from_scan(ts: Seq<Seq<char>>, i: int, platform: Option<Seq<char>>, image: Seq<char>)
    requires
        0 <= i <= ts.len(),
        !has_prefix(image, platform_flag()),
        image.len() > 0 ==> exists|k: int|
            0 <= k < i && ts[k] == image && forall|j: int|
                0 <= j < k ==> has_prefix(#[trigger] ts[j], platform_flag()) || ts[j].len() == 0,
        image.len() == 0 ==> forall|j: int|
            0 <= j < i ==> has_prefix(#[trigger] ts[j], platform_flag()) || ts[j].len() == 0,
        platform matches Some(x) ==> exists|k: int|
            0 <= k < i && has_prefix(ts[k], platform_flag()) && x == strip_prefix_all(#[trigger] ts[k], platform_flag()),
        i > 0 && has_prefix(ts[0], platform_flag()) ==> platform is Some,
    ensures
        from_fields_ok(ts, from_scan(ts, i, platform, image)),
    decreases ts.len() - i,
{
    reveal_strlit("--platform=");
    if i < ts.len() {
        let p = ts[i];
        if has_prefix(p, "--platform="@) {
            let np = Some(strip_prefix_all(p, "--platform="@));
            if image.len() > 0 {
                let k = choose|k: int|
                    0 <= k < i && ts[k] == image && forall|j: int|
                        0 <= j < k ==> has_prefix(#[trigger] ts[j], platform_flag()) || ts[j].len() == 0;
                assert(0 <= k < i + 1);
            }
            lemma_from_scan(ts, i + 1, np, image);
        } else if image.len() == 0 {
            if p.len() > 0 {
                assert(forall|j: int| 0 <= j < i ==> has_prefix(#[trigger] ts[j], platform_flag()) || ts[j].len() == 0);
                assert(ts[i] == p);
            }
            if let Some(x) = platform {
                let k = choose|k: int|
                    0 <= k < i && has_prefix(ts[k], platform_flag()) && x == strip_prefix_all(#[trigger] ts[k], platform_flag());
                assert(0 <= k < i + 1);
            }
            lemma_from_scan(ts, i + 1, platform, p);
        } else if eq_ascii_ci(p, "AS"@) && i + 1 < ts.len() {
        } else {
            if let Some(x) = platform {
                let k = choose|k: int|
                    0 <= k < i && has_prefix(ts[k], platform_flag()) && x == strip_prefix_all(#[trigger] ts[k], platform_flag());
                assert(0 <= k < i + 1);
            }
            let k = choose|k: int|
                0 <= k < i && ts[k] == image && forall|j: int|
                    0 <= j < k ==> has_prefix(#[trigger] ts[j], platform_flag()) || ts[j].len() == 0;
            assert(0 <= k < i + 1);
            lemma_from_scan(ts, i + 1, platform, image);
        }
    }
}

/// `FROM` never takes a `--platform=` flag for the image: the image is the first
/// token without the flag, the platform is the text after the flag of a flagged
/// token, and a flag in first position always gives a platform.
pub proof fn lemma_from_platform_never_image(payload: Seq<char>)
    ensures
        from_fields_ok(tokens(payload), from_spec(payload)),
{
    reveal_strlit("--platform=");
    lemma_from_scan(tokens(payload), 0, None, Seq::empty());
}

/// Removing a prefix once more leaves a text that does not start with it.
proof fn lemma_strip_flag(x: Seq<char>)
    requires
        !has_prefix(x, platform_flag()),
    ensures
        strip_prefix_all(platform_flag() + x, platform_flag()) == x,
{
    reveal_strlit("--platform=");
    let p = platform_flag();
    assert(p.len() > 0);
    assert((p + x).take(p.len() as int) =~= p);
    assert(has_prefix(p + x, p));
    assert((p + x).skip(p.len() as int) =~= x);
    assert(strip_prefix_all(x, p) == x);
    assert(strip_prefix_all(p + x, p) == strip_prefix_all((p + x).skip(p.len() as int), p));
}

/// `FROM --platform=X IMAGE ...` (no other flagged token, `X` not itself starting
/// with the flag) reads `IMAGE` as the image and `X` as the platform.
pub proof fn lemma_from_platform_then_image(payload: Seq<char>, x: Seq<char>)
    requires
        tokens(payload).len() >= 2,
        tokens(payload)[0] == platform_flag() + x,
        !has_prefix(x, platform_flag()),
        tokens(payload)[1].len() > 0,
        forall|j: int| 1 <= j < tokens(payload).len() ==> !has_prefix(#[trigger] tokens(payload)[j], platform_flag()),
    ensures
        from_spec(payload) matches KindView::From { image, platform, .. } && image == tokens(payload)[1]
            && platform == Some(x),
{
    reveal_strlit("--platform=");
    let ts = tokens(payload);
    lemma_from_platform_never_image(payload);
    lemma_strip_flag(x);
    assert(has_prefix(ts[0], platform_flag())) by {
        assert((platform_flag() + x).take(platform_flag().len() as int) =~= platform_flag());
    }
    let r = from_spec(payload);
    if let KindView::From { image, platform, .. } = r {
        assert(!(has_prefix(ts[1], platform_flag()) || ts[1].len() == 0));
        assert(image.len() > 0);
        let k = choose|k: int|
            0 <= k < ts.len() && ts[k] == image && forall|j: int|
                0 <= j < k ==> has_prefix(#[trigger] ts[j], platform_flag()) || ts[j].len() == 0;
        assert(k != 0);
        if k > 1 {
            assert(has_prefix(ts[1], platform_flag()) || ts[1].len() == 0);
        }
        assert(platform is Some);
        let y = platform->Some_0;
        let k2 = choose|k2: int|
            0 <= k2 < ts.len() && has_prefix(ts[k2], platform_flag()) && y == strip_prefix_all(#[trigger] ts[k2], platform_flag());
        assert(k2 == 0);
    }
}

fn parse_from(payload: &Vec<char>) -> (r: InstructionKind)
    ensures
        r@ == from_spec(payload@),
{
    let ts = split_tokens(payload);
    let ghost tv = tokens(payload@);
    assert(ts@.map_values(|v: Vec<char>| v@) =~= tv);
    let pre = lit("--platform=");
    let as_kw = lit("AS");
    let mut platform: Option<Vec<char>> = None;
    let mut image: Vec<char> = Vec::new();
    let mut i: usize = 0;
    while i < ts.len()
        invariant
            i <= ts.len(),
            tv == tokens(payload@),
            ts@.len() == tv.len(),
            forall|j: int| 0 <= j < ts@.len() ==> #[trigger] ts@[j]@ == tv[j],
            pre@ == "--platform="@,
            as_kw@ == "AS"@,
            from_scan(tv, 0, None, Seq::empty()) == from_scan(
                tv,
                i as int,
                match platform {
                    Some(p) => Some(p@),
                    None => None,
                },
                image@,
            ),
        decreases ts.len() - i,
    {
        let p = &ts[i];
        assert(p@ == tv[i as int]);
        if starts_with_chars(p, &pre) {
            platform = Some(strip_prefix_all_chars(p, &pre));
        } else if image.len() == 0 {
            image = slice_chars(p, 0, p.len());
            assert(p@.subrange(0, p@.len() as int) =~= p@);
        } else if eq_ignore_ascii_case_chars(p, &as_kw) && i + 1 < ts.len() {
            let alias = text_of(&ts[i + 1]);
            assert(alias@ == tv[i + 1]);
            let ghost pv = match &platform {
                Some(pl) => Some(pl@),
                None => None::<Seq<char>>,
            };
            let plat = match &platform {
                Some(pl) => Some(text_of(&pl)),
                None => None,
            };
            assert(opt_view(plat) == pv);
            let img = text_of(&image);
            assert(from_scan(tv, i as int, pv, image@) == KindView::From {
                image: image@,
                platform: pv,
                stage_alias: Some(tv[i + 1]),
            });
            return InstructionKind::From { image: img, platform: plat, stage_alias: Some(alias) };
        }
        i = i + 1;
    }
    InstructionKind::From {
        image: text_of(&image),
        platform: match platform {
            Some(pl) => Some(text_of(&pl)),
            None => None,
        },
        stage_alias: None,
    }
}

// ---------------------------------------------------------------------------
// JSON-style arrays and command arguments

/// An array item without surrounding whitespace, double quotes and single quotes.
pub open spec fn array_item(s: Seq<char>) -> Seq<char> {
    trim_by(trim_by(trim_ws(s), CharClass::Only('"')), CharClass::Only('\''))
}

/// The non-empty cleaned items of the parts, in order.
pub open spec fn array_items(parts: Seq<Seq<char>>) -> Seq<Seq<char>>
    decreases parts.len(),
{
    if parts.len() == 0 {
        Seq::empty()
    } else {
        let prev = array_items(parts.drop_last());
        let c = array_item(parts.last());
        if c.len() > 0 {
            prev.push(c)
        } else {
            prev
        }
    }
}

/// The items of a JSON-style array text: brackets, spaces and line feeds trimmed
/// from both ends, split at commas, each item cleaned, empty items dropped.
pub open spec fn array_spec(raw: Seq<char>) -> Seq<Seq<char>> {
    array_items(split_at_char(trim_by(raw, CharClass::ArrayEdge), ','))
}

/// True when an argument text is in exec form: it starts with `[` and ends with `]`.
pub open spec fn exec_form(payload: Seq<char>) -> bool {
    has_prefix(payload, "["@) && has_suffix(payload, "]"@)
}

/// Arguments of `RUN`, `CMD` and `ENTRYPOINT`: the array items in exec form, else
/// the whole text.
pub open spec fn args_spec(payload: Seq<char>) -> Seq<Seq<char>> {
    if exec_form(payload) {
        array_spec(payload)
    } else {
        seq![payload]
    }
}

fn parse_json_string_array(raw: &Vec<char>) -> (r: Vec<String>)
    ensures
        view_lines(r@) == array_spec(raw@),
{
    let inner = trim_chars(raw, CharClass::ArrayEdge);
    let parts = split_chars_at(&inner, ',');
    let ghost pv = split_at_char(inner@, ',');
    let mut out: Vec<String> = Vec::new();
    let mut i: usize = 0;
    while i < parts.len()
        invariant
            i <= parts.len(),
            parts@.len() == pv.len(),
            forall|j: int| 0 <= j < parts@.len() ==> #[trigger] parts@[j]@ == pv[j],
            view_lines(out@) == array_items(pv.take(i as int)),
        decreases parts.len() - i,
    {
        assert(pv.take(i + 1).drop_last() =~= pv.take(i as int));
        let a = trim_chars(&parts[i], CharClass::Whitespace);
        let b = trim_chars(&a, CharClass::Only('"'));
        let c = trim_chars(&b, CharClass::Only('\''));
        if c.len() > 0 {
            let s = text_of(&c);
            out.push(s);
            assert(view_lines(out@) =~= view_lines(out@.drop_last()).push(s@));
        }
        i = i + 1;
    }
    assert(pv.take(parts.len() as int) =~= pv);
    out
}

fn is_exec_form(payload: &Vec<char>) -> (r: bool)
    ensures
        r == exec_form(payload@),
{
    let open = lit("[");
    let close = lit("]");
    if !starts_with_chars(payload, &open) {
        return false;
    }
    if close.len() > payload.len() {
        return false;
    }
    let tail = slice_chars(payload, payload.len() - close.len(), payload.len());
    assert(payload@.subrange(payload.len() - close.len(), payload.len() as int) =~= payload@.skip(
        payload@.len() - close@.len(),
    ));
    let r = tail.len() == close.len() && starts_with_chars(&tail, &close);
    assert(tail@.take(close@.len() as int) =~= tail@);
    r
}

fn parse_args(payload: &Vec<char>) -> (r: (Vec<String>, bool))
    ensures
        view_lines(r.0@) == args_spec(payload@),
        r.1 == exec_form(payload@),
{
    let exec = is_exec_form(payload);
    if exec {
        (parse_json_string_array(payload), true)
    } else {
        let mut v: Vec<String> = Vec::new();
        let s = text_of(payload);
        v.push(s);
        assert(view_lines(v@) =~= seq![payload@]);
        (v, false)
    }
}

/// `RUN` (or `CMD` when `is_cmd`) with its arguments.
fn parse_cmd_or_run(payload: &Vec<char>, is_cmd: bool) -> (r: InstructionKind)
    ensures
        r@ == (if is_cmd {
            KindView::Cmd { arguments: args_spec(payload@), is_exec_form: exec_form(payload@) }
        } else {
            KindView::Run { command: args_spec(payload@), is_exec_form: exec_form(payload@) }
        }),
{
    let (args, is_exec) = parse_args(payload);
    if is_cmd {
        InstructionKind::Cmd { arguments: args, is_exec_form: is_exec }
    } else {
        InstructionKind::Run { command: args, is_exec_form: is_exec }
    }
}

/// `ENTRYPOINT` with its arguments.
fn parse_entrypoint(payload: &Vec<char>) -> (r: InstructionKind)
    ensures
        r@ == (KindView::Entrypoint { arguments: args_spec(payload@), is_exec_form: exec_form(payload@) }),
{
    let (arguments, is_exec_form) = parse_args(payload);
    InstructionKind::Entrypoint { arguments, is_exec_form }
}

// ---------------------------------------------------------------------------
// COPY and ADD

/// The value of the last token with the prefix (the prefix stripped), if any.
pub open spec fn last_flag(ts: Seq<Seq<char>>, pre: Seq<char>) -> Option<Seq<char>>
    decreases ts.len(),
{
    if ts.len() == 0 {
        None
    } else if has_prefix(ts.last(), pre) {
        Some(strip_prefix_all(ts.last(), pre))
    } else {
        last_flag(ts.drop_last(), pre)
    }
}

/// The tokens that are neither `--from=` nor `--chown=` flags, in order.
pub open spec fn positional(ts: Seq<Seq<char>>) -> Seq<Seq<char>>
    decreases ts.len(),
{
    if ts.len() == 0 {
        Seq::empty()
    } else {
        let prev = positional(ts.drop_last());
        if has_prefix(ts.last(), "--from="@) || has_prefix(ts.last(), "--chown="@) {
            prev
        } else {
            prev.push(ts.last())
        }
    }
}

/// `COPY` (when `is_copy`) or `ADD` parameters: the last positional token is the
/// destination (empty when there is none), the others are the sources.
pub open spec fn copy_add_spec(payload: Seq<char>, is_copy: bool) -> KindView {
    let ts = tokens(payload);
    let pos = positional(ts);
    let destination = if pos.len() > 0 { pos.last() } else { Seq::empty() };
    let sources = if pos.len() > 0 { pos.drop_last() } else { Seq::empty() };
    if is_copy {
        KindView::Copy {
            sources,
            destination,
            from_stage: last_flag(ts, "--from="@),
            chown: last_flag(ts, "--chown="@),
        }
    } else {
        KindView::Add { sources, destination, chown: last_flag(ts, "--chown="@) }
    }
}

fn opt_text(o: &Option<Vec<char>>) -> (r: Option<String>)
    ensures
        opt_view(r) == (match *o {
            Some(v) => Some(v@),
            None => None::<Seq<char>>,
        }),
{
    match o {
        Some(v) => Some(text_of(v)),
        None => None,
    }
}

fn parse_copy_or_add(payload: &Vec<char>, is_copy: bool) -> (r: InstructionKind)
    ensures
        r@ == copy_add_spec(payload@, is_copy),
{
    let ts = split_tokens(payload);
    let ghost tv = tokens(payload@);
    let from_pre = lit("--from=");
    let chown_pre = lit("--chown=");
    let mut from_stage: Option<Vec<char>> = None;
    let mut chown: Option<Vec<char>> = None;
    let mut pos: Vec<Vec<char>> = Vec::new();
    let mut i: usize = 0;
    while i < ts.len()
        invariant
            i <= ts.len(),
            tv == tokens(payload@),
            ts@.len() == tv.len(),
            forall|j: int| 0 <= j < ts@.len() ==> #[trigger] ts@[j]@ == tv[j],
            from_pre@ == "--from="@,
            chown_pre@ == "--chown="@,
            match from_stage {
                Some(v) => last_flag(tv.take(i as int), "--from="@) == Some(v@),
                None => last_flag(tv.take(i as int), "--from="@) is None,
            },
            match chown {
                Some(v) => last_flag(tv.take(i as int), "--chown="@) == Some(v@),
                None => last_flag(tv.take(i as int), "--chown="@) is None,
            },
            pos@.map_values(|v: Vec<char>| v@) == positional(tv.take(i as int)),
        decreases ts.len() - i,
    {
        let t = &ts[i];
        assert(t@ == tv[i as int]);
        assert(tv.take(i + 1).drop_last() =~= tv.take(i as int));
        assert(tv.take(i + 1).last() == tv[i as int]);
        if starts_with_chars(t, &from_pre) {
            from_stage = Some(strip_prefix_all_chars(t, &from_pre));
            proof {
                reveal_strlit("--from=");
                reveal_strlit("--chown=");
                assert(t@.take(7) == "--from="@);
                assert(t@[2] == t@.take(7)[2]);
                if has_prefix(t@, "--chown="@) {
                    assert(t@[2] == t@.take(8)[2]);
                }
            }
        } else if starts_with_chars(t, &chown_pre) {
            chown = Some(strip_prefix_all_chars(t, &chown_pre));
        } else {
            let c = slice_chars(t, 0, t.len());
            assert(t@.subrange(0, t@.len() as int) =~= t@);
            let ghost prev = pos@;
            pos.push(c);
            assert(pos@.map_values(|v: Vec<char>| v@) =~= prev.map_values(|v: Vec<char>| v@).push(
                t@,
            ));
        }
        i = i + 1;
    }
    assert(tv.take(ts.len() as int) =~= tv);
    let ghost pv = positional(tv);
    let destination = match pos.pop() {
        Some(d) => text_of(&d),
        None => String::new(),
    };
    proof {
        if pv.len() > 0 {
            assert(pos@.map_values(|v: Vec<char>| v@) =~= pv.drop_last());
        } else {
            assert(pos@.len() == 0);
        }
    }
    let sources = texts_of(&pos);
    proof {
        if pv.len() == 0 {
            assert(view_lines(sources@) =~= Seq::<Seq<char>>::empty());
        }
    }
    if is_copy {
        InstructionKind::Copy {
            sources,
            destination,
            from_stage: opt_text(&from_stage),
            chown: opt_text(&chown),
        }
    } else {
        InstructionKind::Add { sources, destination, chown: opt_text(&chown) }
    }
}

// ---------------------------------------------------------------------------
// ENV, LABEL, ARG, USER, EXPOSE

/// The `key=value` pairs of the tokens that hold `=`, split at their first `=`;
/// with `unquote`, double quotes are trimmed from the values.
pub open spec fn eq_pairs(ts: Seq<Seq<char>>, unquote: bool) -> Seq<(Seq<char>, Seq<char>)>
    decreases ts.len(),
{
    if ts.len() == 0 {
        Seq::empty()
    } else {
        let prev = eq_pairs(ts.drop_last(), unquote);
        match split_once_by(ts.last(), CharClass::Only('=')) {
            Some((k, v)) => prev.push((k, if unquote { trim_by(v, CharClass::Only('"')) } else { v })),
            None => prev,
        }
    }
}

/// `ENV` parameters: with an `=` anywhere, the `key=value` tokens; otherwise the
/// text split at its first whitespace into key and value, or the whole text as a
/// key with an empty value.
pub open spec fn env_spec(payload: Seq<char>) -> KindView {
    if first_in(payload, CharClass::Only('=')) is Some {
        KindView::Env { pairs: eq_pairs(tokens(payload), false) }
    } else {
        match split_once_by(payload, CharClass::Whitespace) {
            Some((k, v)) => KindView::Env { pairs: seq![(k, v)] },
            None => if payload.len() > 0 {
                KindView::Env { pairs: seq![(payload, Seq::empty())] }
            } else {
                KindView::Env { pairs: Seq::empty() }
            },
        }
    }
}

fn collect_eq_pairs(payload: &Vec<char>, unquote: bool) -> (r: Vec<(String, String)>)
    ensures
        pairs_view(r@) == eq_pairs(tokens(payload@), unquote),
{
    let ts = split_tokens(payload);
    let ghost tv = tokens(payload@);
    let mut out: Vec<(String, String)> = Vec::new();
    let mut i: usize = 0;
    while i < ts.len()
        invariant
            i <= ts.len(),
            tv == tokens(payload@),
            ts@.len() == tv.len(),
            forall|j: int| 0 <= j < ts@.len() ==> #[trigger] ts@[j]@ == tv[j],
            pairs_view(out@) == eq_pairs(tv.take(i as int), unquote),
        decreases ts.len() - i,
    {
        let t = &ts[i];
        assert(t@ == tv[i as int]);
        assert(tv.take(i + 1).drop_last() =~= tv.take(i as int));
        assert(tv.take(i + 1).last() == tv[i as int]);
        match split_once_chars(t, CharClass::Only('=')) {
            Some((k, v)) => {
                let val = if unquote { trim_chars(&v, CharClass::Only('"')) } else { v };
                let ks = text_of(&k);
                let vs = text_of(&val);
                let ghost prev = out@;
                out.push((ks, vs));
                assert(pairs_view(out@) =~= pairs_view(prev).push((ks@, vs@)));
            },
            None => {},
        }
        i = i + 1;
    }
    assert(tv.take(ts.len() as int) =~= tv);
    out
}

fn parse_env(payload: &Vec<char>) -> (r: InstructionKind)
    ensures
        r@ == env_spec(payload@),
{
    if find_in(payload, CharClass::Only('=')).is_some() {
        return InstructionKind::Env { pairs: collect_eq_pairs(payload, false) };
    }
    let mut pairs: Vec<(String, String)> = Vec::new();
    match split_once_chars(payload, CharClass::Whitespace) {
        Some((k, v)) => {
            let ks = text_of(&k);
            let vs = text_of(&v);
            pairs.push((ks, vs));
            assert(pairs_view(pairs@) =~= seq![(k@, v@)]);
        },
        None => {
            if payload.len() > 0 {
                let ks = text_of(payload);
                pairs.push((ks, String::new()));
                assert(pairs_view(pairs@) =~= seq![(payload@, Seq::<char>::empty())]);
            } else {
                assert(pairs_view(pairs@) =~= Seq::<(Seq<char>, Seq<char>)>::empty());
            }
        },
    }
    InstructionKind::Env { pairs }
}

/// `LABEL` parameters: the `key=value` tokens, double quotes trimmed from values.
pub open spec fn label_spec(payload: Seq<char>) -> KindView {
    KindView::Label { pairs: eq_pairs(tokens(payload), true) }
}

fn parse_label(payload: &Vec<char>) -> (r: InstructionKind)
    ensures
        r@ == label_spec(payload@),
{
    InstructionKind::Label { pairs: collect_eq_pairs(payload, true) }
}

/// `ARG` parameters: split at the first `=` into a name and a default, both
/// trimmed; without `=`, the trimmed text is the name.
pub open spec fn arg_spec(payload: Seq<char>) -> KindView {
    match split_once_by(payload, CharClass::Only('=')) {
        Some((k, v)) => KindView::Arg { name: trim_ws(k), default_value: Some(trim_ws(v)) },
        None => KindView::Arg { name: trim_ws(payload), default_value: None },
    }
}

fn parse_arg(payload: &Vec<char>) -> (r: InstructionKind)
    ensures
        r@ == arg_spec(payload@),
{
    match split_once_chars(payload, CharClass::Only('=')) {
        Some((k, v)) => {
            let kt = trim_chars(&k, CharClass::Whitespace);
            let vt = trim_chars(&v, CharClass::Whitespace);
            InstructionKind::Arg { name: text_of(&kt), default_value: Some(text_of(&vt)) }
        },
        None => {
            let t = trim_chars(payload, CharClass::Whitespace);
            InstructionKind::Arg { name: text_of(&t), default_value: None }
        },
    }
}

/// `USER` parameters: split at the first `:` into user and group.
pub open spec fn user_spec(payload: Seq<char>) -> KindView {
    match split_once_by(payload, CharClass::Only(':')) {
        Some((u, g)) => KindView::User { user: u, group: Some(g) },
        None => KindView::User { user: payload, group: None },
    }
}

/// The first character of a class is found exactly: none before it is of the class.
proof fn lemma_first_in(s: Seq<char>, c: char)
    ensures
        first_in(s, CharClass::Only(c)) matches Some(i) ==> i < s.len() && s[i as int] == c && forall|j: int|
            0 <= j < i ==> s[j] != c,
        first_in(s, CharClass::Only(c)) is None ==> forall|j: int| 0 <= j < s.len() ==> s[j] != c,
    decreases s.len(),
{
    if s.len() > 0 {
        let t = s.drop_first();
        lemma_first_in(t, c);
        assert forall|j: int| 0 <= j < t.len() implies t[j] == s[j + 1] by {}
        if s[0] != c {
            if let Some(i) = first_in(t, CharClass::Only(c)) {
                assert forall|j: int| 0 <= j < i + 1 implies s[j] != c by {
                    if j > 0 {
                        assert(s[j] == t[j - 1]);
                    }
                }
            } else {
                assert forall|j: int| 0 <= j < s.len() implies s[j] != c by {
                    if j > 0 {
                        assert(s[j] == t[j - 1]);
                    }
                }
            }
        }
    }
}

/// `USER name:group` splits at the first `:`: the text is the user, a `:` and
/// the group, with no `:` in the user; without a `:` the whole text is the user
/// and there is no group.
pub proof fn lemma_user_split(payload: Seq<char>)
    ensures
        match user_spec(payload) {
            KindView::User { user, group: Some(g) } => payload == user + seq![':'] + g && forall|c: int|
                0 <= c < user.len() ==> user[c] != ':',
            KindView::User { user, group: None } => user == payload && forall|c: int|
                0 <= c < payload.len() ==> payload[c] != ':',
            _ => false,
        },
{
    lemma_first_in(payload, ':');
    if let Some(i) = first_in(payload, CharClass::Only(':')) {
        let u = payload.take(i as int);
        let g = payload.skip(i as int + 1);
        assert(payload =~= u + seq![':'] + g);
    }
}

/// `ARG name=value` splits at the first `=`: the name and the default are the
/// trimmed texts before and after it, and the name's text holds no `=`; without a
/// `=` the trimmed text is the name and there is no default.
pub proof fn lemma_arg_split(payload: Seq<char>)
    ensures
        match arg_spec(payload) {
            KindView::Arg { name, default_value: Some(v) } => exists|k: Seq<char>, w: Seq<char>|
                payload == k + seq!['='] + w && (forall|c: int| 0 <= c < k.len() ==> k[c] != '=') && name
                    == trim_ws(k) && v == trim_ws(w),
            KindView::Arg { name, default_value: None } => name == trim_ws(payload) && forall|c: int|
                0 <= c < payload.len() ==> payload[c] != '=',
            _ => false,
        },
{
    lemma_first_in(payload, '=');
    if let Some(i) = first_in(payload, CharClass::Only('=')) {
        let k = payload.take(i as int);
        let w = payload.skip(i as int + 1);
        assert(payload =~= k + seq!['='] + w);
    }
}

fn parse_user(payload: &Vec<char>) -> (r: InstructionKind)
    ensures
        r@ == user_spec(payload@),
{
    match split_once_chars(payload, CharClass::Only(':')) {
        Some((u, g)) => InstructionKind::User { user: text_of(&u), group: Some(text_of(&g)) },
        None => InstructionKind::User { user: text_of(payload), group: None },
    }
}

fn token_strings(payload: &Vec<char>) -> (r: Vec<String>)
    ensures
        view_lines(r@) == tokens(payload@),
{
    let ts = split_tokens(payload);
    let r = texts_of(&ts);
    assert(ts@.map_values(|v: Vec<char>| v@) =~= tokens(payload@));
    r
}

/// `VOLUME` parameters: the array items in exec form, else the tokens.
pub open spec fn volume_spec(payload: Seq<char>) -> KindView {
    if exec_form(payload) {
        KindView::Volume { paths: array_spec(payload) }
    } else {
        KindView::Volume { paths: tokens(payload) }
    }
}

fn parse_volume(payload: &Vec<char>) -> (r: InstructionKind)
    ensures
        r@ == volume_spec(payload@),
{
    if is_exec_form(payload) {
        InstructionKind::Volume { paths: parse_json_string_array(payload) }
    } else {
        InstructionKind::Volume { paths: token_strings(payload) }
    }
}

// ---------------------------------------------------------------------------
// HEALTHCHECK

/// `HEALTHCHECK` parameters found scanning tokens from index `i` with the options
/// found before it; `CMD` ends the options and the tokens after it are the command.
pub open spec fn health_scan(
    ts: Seq<Seq<char>>,
    i: int,
    interval: Option<Seq<char>>,
    timeout: Option<Seq<char>>,
    start_period: Option<Seq<char>>,
    retries: Option<usize>,
) -> KindView
    decreases ts.len() - i,
{
    if i < 0 || i >= ts.len() {
        KindView::Healthcheck { is_none: false, interval, timeout, start_period, retries, command: Seq::empty() }
    } else {
        let p = ts[i];
        if has_prefix(p, "--interval="@) {
            health_scan(ts, i + 1, Some(strip_prefix_all(p, "--interval="@)), timeout, start_period, retries)
        } else if has_prefix(p, "--timeout="@) {
            health_scan(ts, i + 1, interval, Some(strip_prefix_all(p, "--timeout="@)), start_period, retries)
        } else if has_prefix(p, "--start-period="@) {
            health_scan(ts, i + 1, interval, timeout, Some(strip_prefix_all(p, "--start-period="@)), retries)
        } else if has_prefix(p, "--retries="@) {
            health_scan(ts, i + 1, interval, timeout, start_period, parse_usize_spec(strip_prefix_all(p, "--retries="@)))
        } else if p == "CMD"@ {
            KindView::Healthcheck { is_none: false, interval, timeout, start_period, retries, command: ts.skip(i + 1) }
        } else {
            health_scan(ts, i + 1, interval, timeout, start_period, retries)
        }
    }
}

/// `HEALTHCHECK` parameters: `NONE` (any case) disables it, otherwise options
/// and the command after `CMD`.
pub open spec fn health_spec(payload: Seq<char>) -> KindView {
    if eq_ascii_ci(payload, "NONE"@) {
        KindView::Healthcheck {
            is_none: true,
            interval: None,
            timeout: None,
            start_period: None,
            retries: None,
            command: Seq::empty(),
        }
    } else {
        health_scan(tokens(payload), 0, None, None, None, None)
    }
}

/// The characters of an optional character vector.
pub open spec fn ov(o: Option<Vec<char>>) -> Option<Seq<char>> {
    match o {
        Some(v) => Some(v@),
        None => None,
    }
}

fn parse_healthcheck(payload: &Vec<char>) -> (r: InstructionKind)
    ensures
        r@ == health_spec(payload@),
{
    let none_kw = lit("NONE");
    if eq_ignore_ascii_case_chars(payload, &none_kw) {
        let command: Vec<String> = Vec::new();
        assert(view_lines(command@) =~= Seq::<Seq<char>>::empty());
        return InstructionKind::Healthcheck {
            is_none: true,
            interval: None,
            timeout: None,
            start_period: None,
            retries: None,
            command,
        };
    }
    let ts = split_tokens(payload);
    let ghost tv = tokens(payload@);
    let p_interval = lit("--interval=");
    let p_timeout = lit("--timeout=");
    let p_start = lit("--start-period=");
    let p_retries = lit("--retries=");
    let cmd_kw = lit("CMD");
    let mut interval: Option<Vec<char>> = None;
    let mut timeout: Option<Vec<char>> = None;
    let mut start_period: Option<Vec<char>> = None;
    let mut retries: Option<usize> = None;
    let mut i: usize = 0;
    while i < ts.len()
        invariant
            i <= ts.len(),
            tv == tokens(payload@),
            ts@.len() == tv.len(),
            forall|j: int| 0 <= j < ts@.len() ==> #[trigger] ts@[j]@ == tv[j],
            p_interval@ == "--interval="@,
            p_timeout@ == "--timeout="@,
            p_start@ == "--start-period="@,
            p_retries@ == "--retries="@,
            cmd_kw@ == "CMD"@,
            !eq_ascii_ci(payload@, "NONE"@),
            health_scan(tv, 0, None, None, None, None) == health_scan(
                tv,
                i as int,
                ov(interval),
                ov(timeout),
                ov(start_period),
                retries,
            ),
        decreases ts.len() - i,
    {
        let p = &ts[i];
        assert(p@ == tv[i as int]);
        if starts_with_chars(p, &p_interval) {
            interval = Some(strip_prefix_all_chars(p, &p_interval));
        } else if starts_with_chars(p, &p_timeout) {
            timeout = Some(strip_prefix_all_chars(p, &p_timeout));
        } else if starts_with_chars(p, &p_start) {
            start_period = Some(strip_prefix_all_chars(p, &p_start));
        } else if starts_with_chars(p, &p_retries) {
            let v = strip_prefix_all_chars(p, &p_retries);
            retries = parse_usize_chars(&v);
        } else if same_chars(p, &cmd_kw) {
            let mut rest: Vec<Vec<char>> = Vec::new();
            let mut k = i + 1;
            while k < ts.len()
                invariant
                    i < k <= ts.len(),
                    ts@.len() == tv.len(),
                    forall|j: int| 0 <= j < ts@.len() ==> #[trigger] ts@[j]@ == tv[j],
                    rest@.map_values(|v: Vec<char>| v@) == tv.subrange(i + 1, k as int),
                decreases ts.len() - k,
            {
                let c = slice_chars(&ts[k], 0, ts[k].len());
                assert(ts@[k as int]@.subrange(0, ts@[k as int]@.len() as int) =~= tv[k as int]);
                assert(c@ == tv[k as int]);
                let ghost prev = rest@;
                rest.push(c);
                assert(rest@.map_values(|v: Vec<char>| v@) =~= prev.map_values(|v: Vec<char>| v@).push(c@));
                assert(rest@.map_values(|v: Vec<char>| v@) =~= tv.subrange(i + 1, k + 1));
                k = k + 1;
            }
            assert(tv.subrange(i + 1, tv.len() as int) =~= tv.skip(i + 1));
            let command = texts_of(&rest);
            return InstructionKind::Healthcheck {
                is_none: false,
                interval: opt_text(&interval),
                timeout: opt_text(&timeout),
                start_period: opt_text(&start_period),
                retries,
                command,
            };
        }
        i = i + 1;
    }
    let command: Vec<String> = Vec::new();
    assert(view_lines(command@) =~= Seq::<Seq<char>>::empty());
    InstructionKind::Healthcheck {
        is_none: false,
        interval: opt_text(&interval),
        timeout: opt_text(&timeout),
        start_period: opt_text(&start_period),
        retries,
        command,
    }
}

/// `SHELL` parameters: the array items.
pub open spec fn shell_spec(payload: Seq<char>) -> KindView {
    KindView::Shell { shell: array_spec(payload) }
}

fn parse_shell(payload: &Vec<char>) -> (r: InstructionKind)
    ensures
        r@ == shell_spec(payload@),
{
    InstructionKind::Shell { shell: parse_json_string_array(payload) }
}

// ---------------------------------------------------------------------------
// Instructions

/// The keyword (uppercased first word) and the argument text (the rest, trimmed)
/// of an instruction line.
pub open spec fn keyword_and_payload(line: Seq<char>) -> (Seq<char>, Seq<char>) {
    match split_once_by(line, CharClass::Whitespace) {
        Some((a, b)) => (uppercase(a), trim_ws(b)),
        None => (uppercase(line), Seq::empty()),
    }
}

/// The instruction parsed from a trimmed, non-comment line.
pub open spec fn kind_spec(line: Seq<char>) -> KindView {
    let (kw, payload) = keyword_and_payload(line);
    if kw == "FROM"@ {
        from_spec(payload)
    } else if kw == "RUN"@ {
        KindView::Run { command: args_spec(payload), is_exec_form: exec_form(payload) }
    } else if kw == "COPY"@ {
        copy_add_spec(payload, true)
    } else if kw == "ADD"@ {
        copy_add_spec(payload, false)
    } else if kw == "CMD"@ {
        KindView::Cmd { arguments: args_spec(payload), is_exec_form: exec_form(payload) }
    } else if kw == "ENTRYPOINT"@ {
        KindView::Entrypoint { arguments: args_spec(payload), is_exec_form: exec_form(payload) }
    } else if kw == "ENV"@ {
        env_spec(payload)
    } else if kw == "ARG"@ {
        arg_spec(payload)
    } else if kw == "EXPOSE"@ {
        KindView::Expose { ports: tokens(payload) }
    } else if kw == "LABEL"@ {
        label_spec(payload)
    } else if kw == "USER"@ {
        user_spec(payload)
    } else if kw == "WORKDIR"@ {
        KindView::Workdir { path: payload }
    } else if kw == "HEALTHCHECK"@ {
        health_spec(payload)
    } else if kw == "STOPSIGNAL"@ {
        KindView::Stopsignal { signal: payload }
    } else if kw == "SHELL"@ {
        shell_spec(payload)
    } else if kw == "VOLUME"@ {
        volume_spec(payload)
    } else if kw == "ONBUILD"@ {
        KindView::Onbuild { trigger: payload }
    } else {
        KindView::Raw { keyword: kw, payload }
    }
}

fn parse_instruction_kind(line: &Vec<char>) -> (r: InstructionKind)
    ensures
        r@ == kind_spec(line@),
{
    let (first, payload) = match split_once_chars(line, CharClass::Whitespace) {
        Some((a, b)) => (a, trim_chars(&b, CharClass::Whitespace)),
        None => (slice_chars(line, 0, line.len()), Vec::new()),
    };
    assert(line@.subrange(0, line@.len() as int) =~= line@);
    let first_s = text_of(&first);
    let kw = str_to_uppercase(first_s.as_str());
    let k = kw.as_str();
    assert(keyword_and_payload(line@) == (kw@, payload@));
    if str_eq(k, "FROM") {
        parse_from(&payload)
    } else if str_eq(k, "RUN") {
        parse_cmd_or_run(&payload, false)
    } else if str_eq(k, "COPY") {
        parse_copy_or_add(&payload, true)
    } else if str_eq(k, "ADD") {
        parse_copy_or_add(&payload, false)
    } else if str_eq(k, "CMD") {
        parse_cmd_or_run(&payload, true)
    } else if str_eq(k, "ENTRYPOINT") {
        parse_entrypoint(&payload)
    } else if str_eq(k, "ENV") {
        parse_env(&payload)
    } else if str_eq(k, "ARG") {
        parse_arg(&payload)
    } else if str_eq(k, "EXPOSE") {
        InstructionKind::Expose { ports: token_strings(&payload) }
    } else if str_eq(k, "LABEL") {
        parse_label(&payload)
    } else if str_eq(k, "USER") {
        parse_user(&payload)
    } else if str_eq(k, "WORKDIR") {
        InstructionKind::Workdir { path: text_of(&payload) }
    } else if str_eq(k, "HEALTHCHECK") {
        parse_healthcheck(&payload)
    } else if str_eq(k, "STOPSIGNAL") {
        InstructionKind::Stopsignal { signal: text_of(&payload) }
    } else if str_eq(k, "SHELL") {
        parse_shell(&payload)
    } else if str_eq(k, "VOLUME") {
        parse_volume(&payload)
    } else if str_eq(k, "ONBUILD") {
        InstructionKind::Onbuild { trigger: text_of(&payload) }
    } else {
        InstructionKind::Raw { keyword: kw, payload: text_of(&payload) }
    }
}

// ---------------------------------------------------------------------------
// Logical lines

/// The state of joining lines: the finished logical lines (each with the number
/// of its first line), the line being continued, and the number of its first line.
pub struct JoinState {
    pub out: Seq<(usize, Seq<char>)>,
    pub cur: Seq<char>,
    pub start: usize,
}

/// One source line joined: a line whose trimmed text ends in `\` continues the
/// current logical line with its trimmed text, backslashes removed, and a space;
/// any other line ends the logical line.
pub open spec fn join_step(st: JoinState, line_num: usize, line: Seq<char>) -> JoinState {
    let start = if st.cur.len() == 0 { line_num } else { st.start };
    let t = trim_ws(line);
    if t.len() > 0 && t.last() == '\\' {
        JoinState {
            out: st.out,
            cur: st.cur + trim_ws(trim_end_by(t, CharClass::Only('\\'))) + seq![' '],
            start,
        }
    } else {
        JoinState { out: st.out.push((start, st.cur + line)), cur: Seq::empty(), start }
    }
}

/// The state after joining the first `n` lines (line numbers start at 1).
pub open spec fn join_lines_upto(lines: Seq<Seq<char>>, n: nat) -> JoinState
    decreases n,
{
    if n == 0 {
        JoinState { out: Seq::empty(), cur: Seq::empty(), start: 1 }
    } else {
        join_step(join_lines_upto(lines, (n - 1) as nat), n as usize, lines[n - 1])
    }
}

/// The logical lines of a source: its lines joined, an unfinished continuation
/// kept as the last logical line.
pub open spec fn logical_lines_of(src: Seq<char>) -> Seq<(usize, Seq<char>)> {
    let ls = crate::buffer::commands::std_lines(src);
    let st = join_lines_upto(ls, ls.len());
    if st.cur.len() > 0 {
        st.out.push((st.start, st.cur))
    } else {
        st.out
    }
}

/// The characters of a list of numbered lines.
pub open spec fn numbered_view(v: Seq<(usize, Vec<char>)>) -> Seq<(usize, Seq<char>)> {
    v.map_values(|p: (usize, Vec<char>)| (p.0, p.1@))
}

fn concat_chars(a: &Vec<char>, b: &Vec<char>) -> (r: Vec<char>)
    ensures
        r@ == a@ + b@,
{
    let mut out = slice_chars(a, 0, a.len());
    assert(a@.subrange(0, a@.len() as int) =~= a@);
    let mut i: usize = 0;
    while i < b.len()
        invariant
            i <= b.len(),
            out@ == a@ + b@.take(i as int),
        decreases b.len() - i,
    {
        out.push(b[i]);
        assert(a@ + b@.take(i + 1) =~= (a@ + b@.take(i as int)).push(b@[i as int]));
        i = i + 1;
    }
    assert(b@.take(b.len() as int) =~= b@);
    out
}

fn preprocess_logical_lines(source: &str) -> (r: Vec<(usize, Vec<char>)>)
    ensures
        numbered_view(r@) == logical_lines_of(source@),
{
    let lines = text_lines(source);
    let ghost ls = crate::buffer::commands::std_lines(source@);
    let mut out: Vec<(usize, Vec<char>)> = Vec::new();
    let mut cur: Vec<char> = Vec::new();
    let mut start: usize = 1;
    let mut i: usize = 0;
    assert(numbered_view(out@) =~= Seq::<(usize, Seq<char>)>::empty());
    while i < lines.len()
        invariant
            i <= lines.len(),
            ls == crate::buffer::commands::std_lines(source@),
            lines@.len() == ls.len(),
            forall|j: int| 0 <= j < lines@.len() ==> #[trigger] lines@[j]@ == ls[j],
            join_lines_upto(ls, i as nat) == (JoinState { out: numbered_view(out@), cur: cur@, start }),
        decreases lines.len() - i,
    {
        let line_num = i + 1;
        let line = &lines[i];
        assert(line@ == ls[i as int]);
        if cur.len() == 0 {
            start = line_num;
        }
        let t = trim_chars(line, CharClass::Whitespace);
        if t.len() > 0 && t[t.len() - 1] == '\\' {
            let a = trim_end_chars(&t, CharClass::Only('\\'));
            let b = trim_chars(&a, CharClass::Whitespace);
            let c = concat_chars(&cur, &b);
            let mut sp: Vec<char> = Vec::new();
            sp.push(' ');
            cur = concat_chars(&c, &sp);
            assert(sp@ =~= seq![' ']);
        } else {
            let joined = concat_chars(&cur, line);
            let ghost prev = out@;
            out.push((start, joined));
            assert(numbered_view(out@) =~= numbered_view(prev).push((start, joined@)));
            cur = Vec::new();
        }
        i = i + 1;
    }
    if cur.len() > 0 {
        let ghost prev = out@;
        let s = start;
        out.push((s, cur));
        assert(numbered_view(out@) =~= numbered_view(prev).push((s, cur@)));
    }
    out
}

// ---------------------------------------------------------------------------
// Parsing

/// The instructions of numbered logical lines: blank lines and lines whose trimmed
/// text starts with `#` are skipped; every other line is parsed, its index being its
/// position among the instructions, its span running from column 1 to its byte
/// length (at least 1).
pub open spec fn parse_lines(lls: Seq<(usize, Seq<char>)>) -> Seq<InstrView>
    decreases lls.len(),
{
    if lls.len() == 0 {
        Seq::empty()
    } else {
        let prev = parse_lines(lls.drop_last());
        let (ln, raw) = lls.last();
        let t = trim_ws(raw);
        if t.len() == 0 || t[0] == '#' {
            prev
        } else {
            let bytes = vstd::utf8::encode_utf8(raw).len() as usize;
            prev.push(
                InstrView {
                    index: prev.len() as usize,
                    line: ln,
                    kind: kind_spec(t),
                    raw,
                    span: Span {
                        start: Position { line: ln, column: 1, byte_offset: 0 },
                        end: Position {
                            line: ln,
                            column: if bytes > 1 { bytes } else { 1 },
                            byte_offset: 0,
                        },
                    },
                },
            )
        }
    }
}

/// The logical lines that hold an instruction: neither blank nor a comment, in order.
pub open spec fn instruction_lines(lls: Seq<(usize, Seq<char>)>) -> Seq<(usize, Seq<char>)>
    decreases lls.len(),
{
    if lls.len() == 0 {
        Seq::empty()
    } else {
        let prev = instruction_lines(lls.drop_last());
        let t = trim_ws(lls.last().1);
        if t.len() == 0 || t[0] == '#' {
            prev
        } else {
            prev.push(lls.last())
        }
    }
}

/// The parsed instructions are the logical lines that hold an instruction, in
/// order: the `i`-th instruction has index `i` and the line number and text of the
/// `i`-th such line.
pub proof fn lemma_parse_lines_in_order(lls: Seq<(usize, Seq<char>)>)
    requires
        lls.len() <= usize::MAX,
    ensures
        instruction_lines(lls).len() <= lls.len(),
        parse_lines(lls).len() == instruction_lines(lls).len(),
        forall|i: int| 0 <= i < parse_lines(lls).len() ==> {
            &&& (#[trigger] parse_lines(lls)[i]).index == i
            &&& parse_lines(lls)[i].line == instruction_lines(lls)[i].0
            &&& parse_lines(lls)[i].raw == instruction_lines(lls)[i].1
        },
    decreases lls.len(),
{
    if lls.len() > 0 {
        let init = lls.drop_last();
        lemma_parse_lines_in_order(init);
        let p = parse_lines(lls);
        let q = instruction_lines(lls);
        assert forall|i: int| 0 <= i < p.len() implies {
            &&& (#[trigger] p[i]).index == i
            &&& p[i].line == q[i].0
            &&& p[i].raw == q[i].1
        } by {
            if i < parse_lines(init).len() {
                assert(p[i] == parse_lines(init)[i]);
                assert(q[i] == instruction_lines(init)[i]);
            }
        }
    }
}

/// The line numbers of numbered lines strictly increase.
pub open spec fn lines_increase(lls: Seq<(usize, Seq<char>)>) -> bool {
    forall|i: int, j: int| 0 <= i < j < lls.len() ==> lls[i].0 < lls[j].0
}

/// While joining, the finished logical lines start at increasing line numbers no
/// later than the last line read, and an unfinished one starts after all of them.
proof fn lemma_join_lines_increase(lines: Seq<Seq<char>>, n: nat)
    requires
        n <= lines.len(),
        n < usize::MAX,
    ensures
        lines_increase(join_lines_upto(lines, n).out),
        forall|i: int| 0 <= i < join_lines_upto(lines, n).out.len() ==> (#[trigger] join_lines_upto(lines, n).out[i]).0 <= n,
        join_lines_upto(lines, n).cur.len() > 0 ==> {
            &&& join_lines_upto(lines, n).start <= n
            &&& forall|i: int| 0 <= i < join_lines_upto(lines, n).out.len() ==> (#[trigger] join_lines_upto(lines, n).out[i]).0
                < join_lines_upto(lines, n).start
        },
        join_lines_upto(lines, n).out.len() + (if join_lines_upto(lines, n).cur.len() > 0 { 1int } else { 0int }) <= n,
    decreases n,
{
    if n > 0 {
        lemma_join_lines_increase(lines, (n - 1) as nat);
        let st = join_lines_upto(lines, (n - 1) as nat);
        let nx = join_lines_upto(lines, n);
        assert(nx == join_step(st, n as usize, lines[n - 1]));
        let start = if st.cur.len() == 0 { n as usize } else { st.start };
        assert forall|i: int| 0 <= i < st.out.len() implies (#[trigger] st.out[i]).0 < start by {}
        if nx.out.len() > st.out.len() {
            assert(nx.out == st.out.push((start, st.cur + lines[n - 1])));
            assert forall|i: int, j: int| 0 <= i < j < nx.out.len() implies nx.out[i].0 < nx.out[j].0 by {
                if j == st.out.len() {
                    assert(nx.out[i] == st.out[i]);
                } else {
                    assert(nx.out[i] == st.out[i] && nx.out[j] == st.out[j]);
                }
            }
            assert forall|i: int| 0 <= i < nx.out.len() implies (#[trigger] nx.out[i]).0 <= n by {
                if i < st.out.len() {
                    assert(nx.out[i] == st.out[i]);
                }
            }
        }
    }
}

/// The logical lines of a source start at strictly increasing line numbers, and
/// there are no more of them than lines.
proof fn lemma_logical_lines_increase(src: Seq<char>)
    requires
        crate::buffer::commands::std_lines(src).len() < usize::MAX,
    ensures
        lines_increase(logical_lines_of(src)),
        logical_lines_of(src).len() <= crate::buffer::commands::std_lines(src).len(),
{
    let ls = crate::buffer::commands::std_lines(src);
    lemma_join_lines_increase(ls, ls.len());
    let st = join_lines_upto(ls, ls.len());
    if st.cur.len() > 0 {
        let q = st.out.push((st.start, st.cur));
        assert forall|i: int, j: int| 0 <= i < j < q.len() implies q[i].0 < q[j].0 by {
            if j == st.out.len() {
                assert(q[i] == st.out[i]);
            } else {
                assert(q[i] == st.out[i] && q[j] == st.out[j]);
            }
        }
    }
}

/// The logical lines that hold an instruction are among the logical lines.
proof fn lemma_instruction_lines_subset(lls: Seq<(usize, Seq<char>)>)
    ensures
        instruction_lines(lls).len() <= lls.len(),
        forall|i: int| 0 <= i < instruction_lines(lls).len() ==> exists|k: int|
            0 <= k < lls.len() && #[trigger] instruction_lines(lls)[i] == lls[k],
        lines_increase(lls) ==> lines_increase(instruction_lines(lls)),
    decreases lls.len(),
{
    if lls.len() > 0 {
        let d = lls.drop_last();
        lemma_instruction_lines_subset(d);
        let p = instruction_lines(d);
        let q = instruction_lines(lls);
        assert forall|i: int| 0 <= i < q.len() implies exists|k: int|
            0 <= k < lls.len() && #[trigger] q[i] == lls[k] by {
            if i < p.len() {
                assert(q[i] == p[i]);
                let k = choose|k: int| 0 <= k < d.len() && p[i] == d[k];
                assert(lls[k] == d[k]);
            } else {
                assert(q[i] == lls[lls.len() - 1]);
            }
        }
        if lines_increase(lls) {
            assert(lines_increase(d)) by {
                assert forall|i: int, j: int| 0 <= i < j < d.len() implies d[i].0 < d[j].0 by {
                    assert(d[i] == lls[i] && d[j] == lls[j]);
                }
            }
            assert forall|i: int, j: int| 0 <= i < j < q.len() implies q[i].0 < q[j].0 by {
                if j >= p.len() {
                    assert(q[i] == p[i]);
                    let k = choose|k: int| 0 <= k < d.len() && p[i] == d[k];
                    assert(lls[k] == d[k]);
                    assert(q[j] == lls[lls.len() - 1]);
                } else {
                    assert(q[i] == p[i] && q[j] == p[j]);
                }
            }
        }
    }
}

/// The instructions of a Dockerfile stand at strictly increasing line numbers, in
/// the order of the source.
pub proof fn lemma_instruction_lines_increase(src: Seq<char>)
    requires
        crate::buffer::commands::std_lines(src).len() < usize::MAX,
    ensures
        forall|i: int, j: int| 0 <= i < j < parse_spec(src).len() ==> parse_spec(src)[i].line < parse_spec(src)[j].line,
{
    let lls = logical_lines_of(src);
    lemma_logical_lines_increase(src);
    lemma_instruction_lines_subset(lls);
    lemma_parse_lines_in_order(lls);
    let q = instruction_lines(lls);
    assert forall|i: int, j: int| 0 <= i < j < parse_spec(src).len() implies parse_spec(src)[i].line
        < parse_spec(src)[j].line by {
        assert(parse_spec(src)[i].line == q[i].0);
        assert(parse_spec(src)[j].line == q[j].0);
    }
}

/// The instructions of a Dockerfile source.
pub open spec fn parse_spec(source: Seq<char>) -> Seq<InstrView> {
    parse_lines(logical_lines_of(source))
}

/// A parsed Dockerfile: its instructions in order and its source.
#[derive(Debug, Clone, PartialEq, Eq)]
pub struct DockerfileAST {
    /// The instructions in order.
    pub instructions: Vec<DockerfileInstruction>,
    /// The source text.
    pub source: String,
}

impl Default for DockerfileAST {
    fn default() -> (r: Self)
        ensures
            r.instructions@.len() == 0,
            r.source@ == Seq::<char>::empty(),
    {
        DockerfileAST { instructions: Vec::new(), source: String::new() }
    }
}

impl DockerfileAST {
    /// True when the file has no instructions.
    pub fn is_empty(&self) -> (r: bool)
        ensures
            r == (self.instructions@.len() == 0),
    {
        self.instructions.len() == 0
    }
}

/// Dockerfile parser.
#[derive(Debug, Clone, Copy, Default)]
pub struct DockerfileParser;

impl DockerfileParser {
    /// Creates a parser.
    pub fn new() -> (r: Self) {
        DockerfileParser
    }

    /// Parses a Dockerfile source into its instructions; parsing always succeeds.
    pub fn parse(&self, source: &str) -> (r: DockerResult<DockerfileAST>)
        ensures
            r matches Ok(ast) && instrs_view(ast.instructions@) == parse_spec(source@)
                && ast.source@ == source@,
    {
        let lls = preprocess_logical_lines(source);
        let ghost lv = logical_lines_of(source@);
        let mut instructions: Vec<DockerfileInstruction> = Vec::new();
        let mut idx: usize = 0;
        while idx < lls.len()
            invariant
                idx <= lls.len(),
                numbered_view(lls@) == lv,
                instrs_view(instructions@) == parse_lines(lv.take(idx as int)),
            decreases lls.len() - idx,
        {
            assert(lv.take(idx + 1).drop_last() =~= lv.take(idx as int));
            assert(lv.take(idx + 1).last() == lv[idx as int]);
            let line_num = lls[idx].0;
            let raw_chars = &lls[idx].1;
            assert(lv[idx as int] == (line_num, raw_chars@));
            let trimmed = trim_chars(raw_chars, CharClass::Whitespace);
            if !(trimmed.len() == 0 || trimmed[0] == '#') {
                let raw = text_of(raw_chars);
                let n = raw.as_str().len();
                let end_col = if n > 1 { n } else { 1 };
                let span = Span::new(Position::new(line_num, 1, 0), Position::new(line_num, end_col, 0));
                let kind = parse_instruction_kind(&trimmed);
                let inst = DockerfileInstruction { index: instructions.len(), line: line_num, kind, raw, span };
                let ghost prev = instructions@;
                instructions.push(inst);
                assert(instrs_view(instructions@) =~= instrs_view(prev).push(inst@));
            }
            idx = idx + 1;
        }
        assert(lv.take(lls.len() as int) =~= lv);
        Ok(DockerfileAST { instructions, source: source.to_owned() })
    }
}

} // verus!
