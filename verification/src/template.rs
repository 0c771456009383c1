//! Title and salt templates: texts such as `"Task for {self.login}"`, whose
//! placeholders name fields of the task.
use vstd::prelude::*;

use crate::text::{push_char, push_text};

verus! {

/// The prefix that a placeholder may give before its field's name.
pub open spec fn self_prefix() -> Seq<char> {
    seq!['s', 'e', 'l', 'f', '.']
}

/// `s` without its leading `self.`, where it has one.
pub open spec fn strip_self(s: Seq<char>) -> Seq<char> {
    if s.len() >= 5 && s.take(5) == self_prefix() {
        s.skip(5)
    } else {
        s
    }
}

/// The characters of `t` before its first `}`; nothing where `t` holds no `}`.
pub open spec fn until_close(t: Seq<char>) -> Option<Seq<char>>
    decreases t.len(),
{
    if t.len() == 0 {
        None
    } else if t[0] == '}' {
        Some(Seq::empty())
    } else {
        match until_close(t.drop_first()) {
            Some(f) => Some(seq![t[0]] + f),
            None => None,
        }
    }
}

/// Reading a field's name from the text that follows a `{`: a leading
/// `self.` is skipped, and the name runs up to the first `}`, which is
/// consumed too. Gives the name, or nothing where no `}` follows, and how
/// many characters were consumed (all of them where no `}` follows).
pub open spec fn spec_extract(s: Seq<char>) -> (Option<Seq<char>>, nat) {
    let t = strip_self(s);
    let skipped = (s.len() - t.len()) as nat;
    match until_close(t) {
        Some(f) => (Some(f), skipped + f.len() + 1),
        None => (None, s.len()),
    }
}

/// A name read up to the first `}` is shorter than the text it was read from.
pub proof fn lemma_until_close_len(t: Seq<char>)
    ensures
        until_close(t) matches Some(f) ==> f.len() < t.len() && t[f.len() as int] == '}'
            && f == t.take(f.len() as int) && !f.contains('}'),
        until_close(t) is None ==> !t.contains('}'),
    decreases t.len(),
{
    if t.len() > 0 && t[0] != '}' {
        lemma_until_close_len(t.drop_first());
        if let Some(f) = until_close(t) {
            let g = until_close(t.drop_first()).unwrap();
            assert(f == seq![t[0]] + g);
            assert(f =~= t.take(f.len() as int));
            assert forall|i: int| 0 <= i < f.len() implies f[i] != '}' by {
                if i > 0 {
                    assert(f[i] == g[i - 1]);
                }
            }
        } else {
            assert forall|i: int| 0 <= i < t.len() implies t[i] != '}' by {
                if i > 0 {
                    assert(t[i] == t.drop_first()[i - 1]);
                }
            }
        }
    }
}

/// Reading a name consumes no more than the text holds.
pub proof fn lemma_extract_len(s: Seq<char>)
    ensures
        spec_extract(s).1 <= s.len(),
{
    lemma_until_close_len(strip_self(s));
}

/// The names of the fields that the placeholders of a template name, in
/// order, empty names left out. A `{` whose name has no closing `}` ends
/// the template.
pub open spec fn spec_fields(s: Seq<char>) -> Seq<Seq<char>>
    decreases s.len(),
{
    if s.len() == 0 {
        Seq::empty()
    } else if s[0] != '{' {
        spec_fields(s.drop_first())
    } else {
        let rest = s.drop_first();
        let (f, used) = spec_extract(rest);
        match f {
            None => Seq::empty(),
            Some(name) => {
                proof {
                    lemma_extract_len(rest);
                }
                (if name.len() > 0 {
                    seq![name]
                } else {
                    Seq::empty()
                }) + spec_fields(rest.skip(used as int))
            },
        }
    }
}

/// Adding a text to both sides keeps two sequences of texts with the same
/// elements, where the first gains it only if it lacks it.
pub proof fn lemma_add_text(names: Seq<Seq<char>>, found: Seq<Seq<char>>, x: Seq<char>)
    requires
        names.no_duplicates(),
        names.to_set() == found.to_set(),
    ensures
        ({
            let grown = if names.contains(x) {
                names
            } else {
                names.push(x)
            };
            &&& grown.no_duplicates()
            &&& grown.to_set() == found.push(x).to_set()
        }),
{
    broadcast use vstd::seq_lib::group_seq_properties;

    if names.contains(x) {
        assert(found.push(x).to_set() =~= found.to_set().insert(x));
        assert(names.to_set().contains(x));
        assert(names.to_set().insert(x) =~= names.to_set());
    } else {
        assert(names.push(x).to_set() =~= names.to_set().insert(x));
        assert(found.push(x).to_set() =~= found.to_set().insert(x));
    }
}

/// No field name that a template gives holds a `}`, and none is empty.
pub proof fn field_names_are_plain(s: Seq<char>)
    ensures
        forall|i: int|
            0 <= i < spec_fields(s).len() ==> !(#[trigger] spec_fields(s)[i]).contains('}')
                && spec_fields(s)[i].len() > 0,
    decreases s.len(),
{
    if s.len() > 0 {
        if s[0] != '{' {
            field_names_are_plain(s.drop_first());
            assert(spec_fields(s) == spec_fields(s.drop_first()));
        } else {
            let rest = s.drop_first();
            lemma_extract_len(rest);
            if spec_extract(rest).0 is None {
                assert(spec_fields(s) == Seq::<Seq<char>>::empty());
            }
            lemma_until_close_len(strip_self(rest));
            let (f, used) = spec_extract(rest);
            if let Some(name) = f {
                field_names_are_plain(rest.skip(used as int));
                let head: Seq<Seq<char>> = if name.len() > 0 {
                    seq![name]
                } else {
                    Seq::empty()
                };
                let tail = spec_fields(rest.skip(used as int));
                assert(spec_fields(s) == head + tail);
                assert forall|i: int|
                    0 <= i < spec_fields(s).len() implies !(#[trigger] spec_fields(s)[i]).contains('}')
                    && spec_fields(s)[i].len() > 0 by {
                    if i >= head.len() {
                        assert(spec_fields(s)[i] == tail[i - head.len()]);
                    } else {
                        assert(spec_fields(s)[i] == name);
                        assert(until_close(strip_self(rest)) == Some(name));
                    }
                }
            }
        }
    }
}

/// The text of a template as `format!` reads it: each placeholder that names
/// a field becomes `{}`; a placeholder with an empty name, and a `{` with no
/// `}` after it, stay as they stand.
pub open spec fn spec_format_text(s: Seq<char>) -> Seq<char>
    decreases s.len(),
{
    if s.len() == 0 {
        Seq::empty()
    } else if s[0] != '{' {
        seq![s[0]] + spec_format_text(s.drop_first())
    } else {
        let rest = s.drop_first();
        let (f, used) = spec_extract(rest);
        match f {
            None => s,
            Some(name) => {
                proof {
                    lemma_extract_len(rest);
                }
                (if name.len() > 0 {
                    seq!['{', '}']
                } else {
                    s.take(used + 1int)
                }) + spec_format_text(rest.skip(used as int))
            },
        }
    }
}

/// The fields that the placeholders name, one per placeholder, in the order
/// of the placeholders: the arguments of the `format!` call.
pub open spec fn spec_placeholders_in_order(s: Seq<char>) -> Seq<Seq<char>> {
    spec_fields(s)
}

/// The text of the first field named `name`, where one is.
pub open spec fn spec_lookup(fields: Seq<(Seq<char>, Seq<char>)>, name: Seq<char>) -> Option<
    Seq<char>,
>
    decreases fields.len(),
{
    if fields.len() == 0 {
        None
    } else if fields[0].0 == name {
        Some(fields[0].1)
    } else {
        spec_lookup(fields.drop_first(), name)
    }
}

/// The template with each placeholder that names a field replaced by that
/// field's text; nothing where a placeholder names no field of `fields`.
pub open spec fn spec_render(s: Seq<char>, fields: Seq<(Seq<char>, Seq<char>)>) -> Option<
    Seq<char>,
>
    decreases s.len(),
{
    if s.len() == 0 {
        Some(Seq::empty())
    } else if s[0] != '{' {
        match spec_render(s.drop_first(), fields) {
            Some(t) => Some(seq![s[0]] + t),
            None => None,
        }
    } else {
        let rest = s.drop_first();
        let (f, used) = spec_extract(rest);
        match f {
            None => Some(s),
            Some(name) => {
                proof {
                    lemma_extract_len(rest);
                }
                let head = if name.len() > 0 {
                    spec_lookup(fields, name)
                } else {
                    Some(s.take(used + 1int))
                };
                match (head, spec_render(rest.skip(used as int), fields)) {
                    (Some(h), Some(t)) => Some(h + t),
                    _ => None,
                }
            },
        }
    }
}

/// `p` put before the text, where there is one.
pub open spec fn prepend(p: Seq<char>, o: Option<Seq<char>>) -> Option<Seq<char>> {
    match o {
        Some(t) => Some(p + t),
        None => None,
    }
}

/// The placeholder `{self.f}` for the field `f`.
pub open spec fn placeholder(f: Seq<char>) -> Seq<char> {
    seq!['{'] + self_prefix() + f + seq!['}']
}

/// A name with no `}` is read whole up to the `}` that follows it.
proof fn lemma_until_close_name(f: Seq<char>, q: Seq<char>)
    requires
        !f.contains('}'),
    ensures
        until_close(f + seq!['}'] + q) == Some(f),
    decreases f.len(),
{
    if f.len() == 0 {
        assert((f + seq!['}'] + q)[0] == '}');
    } else {
        assert(f[0] != '}');
        assert(!f.drop_first().contains('}')) by {
            if f.drop_first().contains('}') {
                let i = choose|i: int| 0 <= i < f.drop_first().len() && f.drop_first()[i] == '}';
                assert(f[i + 1] == '}');
            }
        }
        lemma_until_close_name(f.drop_first(), q);
        assert((f + seq!['}'] + q).drop_first() =~= f.drop_first() + seq!['}'] + q);
        assert((f + seq!['}'] + q)[0] == f[0]);
        assert(seq![f[0]] + f.drop_first() =~= f);
    }
}

/// Reading the text after the `{` of `{self.f}` gives `f` and consumes the
/// placeholder.
proof fn lemma_extract_placeholder(f: Seq<char>, q: Seq<char>)
    requires
        !f.contains('}'),
    ensures
        (placeholder(f) + q).drop_first().skip(spec_extract((placeholder(f) + q).drop_first()).1 as int)
            == q,
        spec_extract((placeholder(f) + q).drop_first()).0 == Some(f),
        (placeholder(f) + q)[0] == '{',
{
    let s = placeholder(f) + q;
    let rest = s.drop_first();
    assert(rest =~= self_prefix() + (f + seq!['}'] + q));
    assert(rest.take(5) =~= self_prefix());
    assert(strip_self(rest) =~= f + seq!['}'] + q);
    lemma_until_close_name(f, q);
    assert(rest.skip(spec_extract(rest).1 as int) =~= q);
}

/// Text with no `{` is rendered as it stands, before what follows it.
proof fn lemma_render_plain_prefix(p: Seq<char>, x: Seq<char>, fields: Seq<(Seq<char>, Seq<char>)>)
    requires
        !p.contains('{'),
    ensures
        spec_render(p + x, fields) == prepend(p, spec_render(x, fields)),
    decreases p.len(),
{
    if p.len() == 0 {
        assert(p + x =~= x);
        match spec_render(x, fields) {
            Some(t) => assert(p + t =~= t),
            None => {},
        }
    } else {
        assert(p[0] != '{');
        assert(!p.drop_first().contains('{')) by {
            if p.drop_first().contains('{') {
                let i = choose|i: int| 0 <= i < p.drop_first().len() && p.drop_first()[i] == '{';
                assert(p[i + 1] == '{');
            }
        }
        lemma_render_plain_prefix(p.drop_first(), x, fields);
        assert((p + x).drop_first() =~= p.drop_first() + x);
        assert((p + x)[0] == p[0]);
        match spec_render(x, fields) {
            Some(t) => assert(seq![p[0]] + (p.drop_first() + t) =~= p + t),
            None => {},
        }
    }
}

/// Rendering replaces every placeholder that names a field, not only the
/// first: text with no `{`, then `{self.f}` for a field `f` of value `v`,
/// then the rest, renders as the text, then `v`, then the rest rendered.
pub proof fn render_replaces_each_placeholder(
    p: Seq<char>,
    f: Seq<char>,
    v: Seq<char>,
    q: Seq<char>,
    fields: Seq<(Seq<char>, Seq<char>)>,
)
    requires
        !p.contains('{'),
        f.len() > 0,
        !f.contains('}'),
        spec_lookup(fields, f) == Some(v),
    ensures
        spec_render(p + placeholder(f) + q, fields) == prepend(p + v, spec_render(q, fields)),
{
    lemma_extract_placeholder(f, q);
    assert(p + placeholder(f) + q =~= p + (placeholder(f) + q));
    lemma_render_plain_prefix(p, placeholder(f) + q, fields);
    assert(spec_render(placeholder(f) + q, fields) == prepend(v, spec_render(q, fields)));
    match spec_render(q, fields) {
        Some(t) => assert(p + (v + t) =~= p + v + t),
        None => {},
    }
}

/// A template with no `{` renders as itself.
pub proof fn plain_text_renders_as_itself(p: Seq<char>, fields: Seq<(Seq<char>, Seq<char>)>)
    requires
        !p.contains('{'),
    ensures
        spec_render(p, fields) == Some(p),
{
    lemma_render_plain_prefix(p, Seq::empty(), fields);
    assert(p + Seq::<char>::empty() =~= p);
}

/// Text with no `{` stands in the `format!` text as it is, and gives no
/// argument.
proof fn lemma_plan_plain_prefix(p: Seq<char>, x: Seq<char>)
    requires
        !p.contains('{'),
    ensures
        spec_format_text(p + x) == p + spec_format_text(x),
        spec_fields(p + x) == spec_fields(x),
    decreases p.len(),
{
    if p.len() == 0 {
        assert(p + x =~= x);
        assert(p + spec_format_text(x) =~= spec_format_text(x));
    } else {
        assert(p[0] != '{');
        assert(!p.drop_first().contains('{')) by {
            if p.drop_first().contains('{') {
                let i = choose|i: int| 0 <= i < p.drop_first().len() && p.drop_first()[i] == '{';
                assert(p[i + 1] == '{');
            }
        }
        lemma_plan_plain_prefix(p.drop_first(), x);
        assert((p + x).drop_first() =~= p.drop_first() + x);
        assert((p + x)[0] == p[0]);
        assert(seq![p[0]] + (p.drop_first() + spec_format_text(x)) =~= p + spec_format_text(x));
    }
}

/// Every placeholder that names a field becomes `{}` in the `format!` text
/// and gives one argument, in its place: text with no `{`, then
/// `{self.f}`, then the rest, plans as the text, `{}` and the rest's plan,
/// with `f` before the rest's arguments.
pub proof fn plan_replaces_each_placeholder(p: Seq<char>, f: Seq<char>, q: Seq<char>)
    requires
        !p.contains('{'),
        f.len() > 0,
        !f.contains('}'),
    ensures
        spec_format_text(p + placeholder(f) + q) == p + seq!['{', '}'] + spec_format_text(q),
        spec_placeholders_in_order(p + placeholder(f) + q) == seq![f] + spec_placeholders_in_order(q),
{
    lemma_extract_placeholder(f, q);
    assert(p + placeholder(f) + q =~= p + (placeholder(f) + q));
    lemma_plan_plain_prefix(p, placeholder(f) + q);
    assert(spec_format_text(placeholder(f) + q) == seq!['{', '}'] + spec_format_text(q));
    assert(p + (seq!['{', '}'] + spec_format_text(q)) =~= p + seq!['{', '}'] + spec_format_text(q));
}

/// The texts of name and value of each field.
pub open spec fn field_texts(v: Seq<(String, String)>) -> Seq<(Seq<char>, Seq<char>)> {
    v.map_values(|p: (String, String)| (p.0@, p.1@))
}

/// The texts of a sequence of strings.
pub open spec fn texts(v: Seq<String>) -> Seq<Seq<char>> {
    v.map_values(|x: String| x@)
}

/// A template of a title or a salt: its text, and the names of the fields
/// that its placeholders name, each once.
pub struct VariadicStringParams {
    pub format_str: String,
    pub field_names: Vec<String>,
}

/// The characters of `s`, in order.
pub fn chars_of(s: &str) -> (v: Vec<char>)
    ensures
        v@ == s@,
{
    let mut v: Vec<char> = Vec::new();
    for c in it: s.chars()
        invariant
            v@ == it.seq().take(it.index()),
            it.seq() == s@,
    {
        v.push(c);
    }
    assert(v@ =~= s@);
    v
}

/// Appends the characters of `chars` from `from` up to `to` to `s`.
fn push_chars(s: &mut String, chars: &Vec<char>, from: usize, to: usize)
    requires
        from <= to <= chars.len(),
    ensures
        final(s)@ == old(s)@ + chars@.subrange(from as int, to as int),
{
    let mut i = from;
    while i < to
        invariant
            from <= i <= to <= chars.len(),
            s@ == old(s)@ + chars@.subrange(from as int, i as int),
        decreases to - i,
    {
        push_char(s, chars[i]);
        i = i + 1;
        assert(s@ =~= old(s)@ + chars@.subrange(from as int, i as int));
    }
}

/// The unfolding of the template functions at a placeholder that starts at
/// position `start` of `chars` and whose name reading ends at `next`.
proof fn lemma_placeholder_step(chars: Seq<char>, start: int, next: int)
    requires
        0 <= start < chars.len(),
        chars[start] == '{',
        next == start + 1 + spec_extract(chars.skip(start + 1)).1,
    ensures
        next <= chars.len(),
        chars.skip(start).drop_first() == chars.skip(start + 1),
        chars.skip(start + 1).skip(spec_extract(chars.skip(start + 1)).1 as int) == chars.skip(next),
        chars.skip(start).take(spec_extract(chars.skip(start + 1)).1 + 1int) == chars.subrange(start, next),
        spec_extract(chars.skip(start + 1)).0 is None ==> next == chars.len() && chars.skip(start)
            == chars.subrange(start, chars.len() as int),
{
    lemma_extract_len(chars.skip(start + 1));
    assert(chars.skip(start).drop_first() =~= chars.skip(start + 1));
    assert(chars.skip(start + 1).skip(spec_extract(chars.skip(start + 1)).1 as int) =~= chars.skip(next));
    assert(chars.skip(start).take(spec_extract(chars.skip(start + 1)).1 + 1int) =~= chars.subrange(start, next));
    assert(chars.skip(start) =~= chars.subrange(start, chars.len() as int));
}

/// The text of the template for `format!`, and the fields that are its
/// arguments, one per placeholder, in the order of the placeholders.
pub fn format_plan(template: &str) -> (r: (String, Vec<String>))
    ensures
        r.0@ == spec_format_text(template@),
        texts(r.1@) == spec_placeholders_in_order(template@),
{
    let chars = chars_of(template);
    let len = chars.len();
    let mut text = String::new();
    let mut names: Vec<String> = Vec::new();
    let mut pos: usize = 0;
    assert(chars@.skip(0) =~= chars@);
    while pos < len
        invariant
            len == chars.len(),
            pos <= len,
            spec_format_text(chars@) == text@ + spec_format_text(chars@.skip(pos as int)),
            spec_fields(chars@) == texts(names@) + spec_fields(chars@.skip(pos as int)),
        decreases len - pos,
    {
        let start = pos;
        let ghost s = chars@.skip(start as int);
        let c = chars[pos];
        pos = pos + 1;
        assert(s.drop_first() =~= chars@.skip(pos as int));
        if c != '{' {
            let ghost before = text@;
            push_char(&mut text, c);
            assert(before + spec_format_text(s) =~= text@ + spec_format_text(chars@.skip(pos as int)));
        } else {
            let extracted = VariadicStringParams::extract_field_name(&chars, &mut pos);
            proof {
                lemma_placeholder_step(chars@, start as int, pos as int);
            }
            let ghost before_text = text@;
            let ghost before_names = texts(names@);
            match extracted {
                None => {
                    push_chars(&mut text, &chars, start, len);
                    assert(chars@.skip(pos as int) =~= Seq::<char>::empty());
                    assert(text@ + Seq::<char>::empty() =~= text@);
                    assert(before_names + Seq::<Seq<char>>::empty() =~= before_names);
                },
                Some(name) => {
                    if name.as_str().is_empty() {
                        push_chars(&mut text, &chars, start, pos);
                        assert(before_text + (chars@.subrange(start as int, pos as int)
                            + spec_format_text(chars@.skip(pos as int))) =~= text@
                            + spec_format_text(chars@.skip(pos as int)));
                        assert(before_names + (Seq::<Seq<char>>::empty() + spec_fields(
                            chars@.skip(pos as int),
                        )) =~= before_names + spec_fields(chars@.skip(pos as int)));
                    } else {
                        push_char(&mut text, '{');
                        push_char(&mut text, '}');
                        let ghost x = name@;
                        names.push(name);
                        assert(texts(names@) =~= before_names.push(x));
                        assert(before_text + (seq!['{', '}'] + spec_format_text(
                            chars@.skip(pos as int),
                        )) =~= text@ + spec_format_text(chars@.skip(pos as int)));
                        assert(before_names + (seq![x] + spec_fields(chars@.skip(pos as int)))
                            =~= texts(names@) + spec_fields(chars@.skip(pos as int)));
                    }
                },
            }
        }
    }
    assert(chars@.skip(pos as int) =~= Seq::<char>::empty());
    assert(text@ + Seq::<char>::empty() =~= text@);
    assert(texts(names@) + Seq::<Seq<char>>::empty() =~= texts(names@));
    (text, names)
}

/// The text of the first field named `name`, where one is.
fn lookup<'a>(fields: &'a Vec<(String, String)>, name: &String) -> (r: Option<&'a String>)
    ensures
        match r {
            Some(v) => spec_lookup(field_texts(fields@), name@) == Some(v@),
            None => spec_lookup(field_texts(fields@), name@) is None,
        },
{
    let ghost ft = field_texts(fields@);
    let mut i: usize = 0;
    assert(ft.skip(0) =~= ft);
    while i < fields.len()
        invariant
            i <= fields.len(),
            ft == field_texts(fields@),
            spec_lookup(ft, name@) == spec_lookup(ft.skip(i as int), name@),
        decreases fields.len() - i,
    {
        assert(ft.skip(i as int)[0] == (fields@[i as int].0@, fields@[i as int].1@));
        if fields[i].0 == *name {
            return Some(&fields[i].1);
        }
        assert(ft.skip(i as int).drop_first() =~= ft.skip(i + 1));
        i = i + 1;
    }
    assert(ft.skip(i as int) =~= Seq::<(Seq<char>, Seq<char>)>::empty());
    None
}

/// The template with each placeholder that names a field replaced by the
/// text of the first field of that name in `fields`; nothing where a
/// placeholder names no field there. This is the title or salt that a
/// template gives a task whose fields read as `fields`.
pub fn render_template(template: &str, fields: &Vec<(String, String)>) -> (r: Option<String>)
    ensures
        match r {
            Some(t) => spec_render(template@, field_texts(fields@)) == Some(t@),
            None => spec_render(template@, field_texts(fields@)) is None,
        },
{
    let ghost ft = field_texts(fields@);
    let chars = chars_of(template);
    let len = chars.len();
    let mut text = String::new();
    let mut pos: usize = 0;
    assert(chars@.skip(0) =~= chars@);
    assert(prepend(Seq::<char>::empty(), spec_render(chars@, ft)) =~= spec_render(chars@, ft)) by {
        match spec_render(chars@, ft) {
            Some(t) => assert(Seq::<char>::empty() + t =~= t),
            None => {},
        }
    }
    while pos < len
        invariant
            len == chars.len(),
            pos <= len,
            ft == field_texts(fields@),
            chars@ == template@,
            spec_render(chars@, ft) == prepend(text@, spec_render(chars@.skip(pos as int), ft)),
        decreases len - pos,
    {
        let start = pos;
        let ghost s = chars@.skip(start as int);
        let c = chars[pos];
        pos = pos + 1;
        assert(s.drop_first() =~= chars@.skip(pos as int));
        let ghost before = text@;
        if c != '{' {
            push_char(&mut text, c);
            assert(prepend(before, spec_render(s, ft)) == prepend(text@, spec_render(chars@.skip(pos as int), ft))) by {
                match spec_render(chars@.skip(pos as int), ft) {
                    Some(t) => assert(before + (seq![c] + t) =~= text@ + t),
                    None => {},
                }
            }
        } else {
            let extracted = VariadicStringParams::extract_field_name(&chars, &mut pos);
            proof {
                lemma_placeholder_step(chars@, start as int, pos as int);
            }
            match extracted {
                None => {
                    push_chars(&mut text, &chars, start, len);
                    assert(chars@.skip(pos as int) =~= Seq::<char>::empty());
                    assert(before + s =~= text@ + Seq::<char>::empty());
                },
                Some(name) => {
                    if name.as_str().is_empty() {
                        push_chars(&mut text, &chars, start, pos);
                        assert(prepend(before, spec_render(s, ft)) == prepend(text@, spec_render(chars@.skip(pos as int), ft))) by {
                            match spec_render(chars@.skip(pos as int), ft) {
                                Some(t) => assert(before + (chars@.subrange(start as int, pos as int) + t) =~= text@ + t),
                                None => {},
                            }
                        }
                    } else {
                        match lookup(fields, &name) {
                            None => {
                                assert(s[0] == '{');
                                assert(spec_extract(s.drop_first()).0 == Some(name@));
                                assert(spec_render(s, ft) is None);
                                assert(spec_render(chars@, ft) is None);
                                assert(spec_render(template@, field_texts(fields@)) is None);
                                return None;
                            },
                            Some(value) => {
                                let ghost v = value@;
                                push_text(&mut text, value.as_str());
                                assert(prepend(before, spec_render(s, ft)) == prepend(text@, spec_render(chars@.skip(pos as int), ft))) by {
                                    match spec_render(chars@.skip(pos as int), ft) {
                                        Some(t) => assert(before + (v + t) =~= text@ + t),
                                        None => {},
                                    }
                                }
                            },
                        }
                    }
                },
            }
        }
    }
    assert(chars@.skip(pos as int) =~= Seq::<char>::empty());
    assert(text@ + Seq::<char>::empty() =~= text@);
    Some(text)
}

impl VariadicStringParams {
    /// Reads a field's name from `chars`, from position `pos`, which is just
    /// past a `{`: skips a leading `self.`, then takes the characters up to
    /// the first `}`, and moves `pos` past that `}`. Gives nothing, and moves
    /// `pos` to the end, where no `}` follows.
    pub fn extract_field_name(chars: &Vec<char>, pos: &mut usize) -> (r: Option<String>)
        requires
            *old(pos) <= chars.len(),
        ensures
            ({
                let (f, used) = spec_extract(chars@.skip(*old(pos) as int));
                &&& *final(pos) == *old(pos) + used
                &&& match r {
                    Some(name) => f == Some(name@),
                    None => f is None,
                }
            }),
    {
        let ghost s = chars@.skip(*pos as int);
        let len = chars.len();
        if len - *pos >= 5 && chars[*pos] == 's' && chars[*pos + 1] == 'e' && chars[*pos + 2]
            == 'l' && chars[*pos + 3] == 'f' && chars[*pos + 4] == '.' {
            assert(s.take(5) =~= self_prefix());
            *pos = *pos + 5;
        } else {
            assert(s.len() >= 5 ==> s.take(5) != self_prefix()) by {
                if s.len() >= 5 && s.take(5) == self_prefix() {
                    assert(s.take(5)[0] == 's');
                    assert(s.take(5)[1] == 'e');
                    assert(s.take(5)[2] == 'l');
                    assert(s.take(5)[3] == 'f');
                    assert(s.take(5)[4] == '.');
                }
            }
        }
        let ghost start = *pos;
        let ghost t = strip_self(s);
        assert(t =~= chars@.skip(start as int));
        let mut field = String::new();
        while *pos < len
            invariant
                len == chars.len(),
                start <= *pos <= len,
                *old(pos) <= start,
                s == chars@.skip(*old(pos) as int),
                t == strip_self(s),
                start - *old(pos) == s.len() - t.len(),
                t == chars@.skip(start as int),
                field@ == chars@.subrange(start as int, *pos as int),
                !field@.contains('}'),
                until_close(t) == (match until_close(chars@.skip(*pos as int)) {
                    Some(g) => Some(field@ + g),
                    None => None::<Seq<char>>,
                }),
            decreases len - *pos,
        {
            let c = chars[*pos];
            let ghost u = chars@.skip(*pos as int);
            assert(u[0] == c);
            assert(u.drop_first() =~= chars@.skip(*pos as int + 1));
            if c == '}' {
                assert(until_close(u) == Some(Seq::<char>::empty()));
                assert(field@ + Seq::<char>::empty() =~= field@);
                assert(until_close(t) == Some(field@));
                assert(field@.len() == *pos - start);
                assert(start - *old(pos) == s.len() - t.len());
                *pos = *pos + 1;
                return Some(field);
            }
            let ghost before = field@;
            push_char(&mut field, c);
            *pos = *pos + 1;
            proof {
                assert(field@ =~= chars@.subrange(start as int, *pos as int));
                assert forall|i: int| 0 <= i < field@.len() implies field@[i] != '}' by {
                    if i < field@.len() - 1 {
                        assert(field@[i] == before[i]);
                    }
                }
                match until_close(chars@.skip(*pos as int)) {
                    Some(g) => {
                        assert(before + (seq![c] + g) =~= field@ + g);
                    },
                    None => {},
                }
            }
        }
        assert(chars@.skip(*pos as int) =~= Seq::<char>::empty());
        None
    }
    /// Adds `name` to `names`, where no name there has its text.
    fn insert_name(names: &mut Vec<String>, name: String)
        ensures
            texts(final(names)@) == if texts(old(names)@).contains(name@) {
                texts(old(names)@)
            } else {
                texts(old(names)@).push(name@)
            },
    {
        let mut i: usize = 0;
        while i < names.len()
            invariant
                i <= names.len(),
                forall|j: int| 0 <= j < i ==> names@[j]@ != name@,
            decreases names.len() - i,
        {
            if names[i] == name {
                assert(texts(names@)[i as int] == name@);
                return;
            }
            i = i + 1;
        }
        let ghost before = names@;
        assert(!texts(before).contains(name@)) by {
            if texts(before).contains(name@) {
                let j = choose|j: int| 0 <= j < texts(before).len() && texts(before)[j] == name@;
                assert(before[j]@ == name@);
            }
        }
        names.push(name);
        assert(texts(names@) =~= texts(before).push(name@));
    }

    /// The names of the fields that the placeholders of the template name,
    /// each once, in no stated order: for each `{`, a leading `self.` is
    /// skipped and the name runs to the next `}`; empty names are left out,
    /// and a `{` with no `}` after it ends the template.
    pub fn parse_format_string(format_str: &str) -> (r: Vec<String>)
        ensures
            texts(r@).no_duplicates(),
            texts(r@).to_set() == spec_fields(format_str@).to_set(),
    {
        let chars = chars_of(format_str);
        let len = chars.len();
        let mut names: Vec<String> = Vec::new();
        let ghost mut found: Seq<Seq<char>> = Seq::empty();
        let mut pos: usize = 0;
        assert(chars@.skip(0) =~= chars@);
        while pos < len
            invariant
                len == chars.len(),
                pos <= len,
                spec_fields(chars@) == found + spec_fields(chars@.skip(pos as int)),
                texts(names@).no_duplicates(),
                texts(names@).to_set() == found.to_set(),
            decreases len - pos,
        {
            let ghost s = chars@.skip(pos as int);
            let c = chars[pos];
            pos = pos + 1;
            assert(s.drop_first() =~= chars@.skip(pos as int));
            if c == '{' {
                let ghost rest = chars@.skip(pos as int);
                let extracted = Self::extract_field_name(&chars, &mut pos);
                proof {
                    lemma_extract_len(rest);
                    assert(rest.skip(spec_extract(rest).1 as int) =~= chars@.skip(pos as int));
                }
                match extracted {
                    Some(name) => {
                        if !name.as_str().is_empty() {
                            let ghost prev = found;
                            let ghost prev_names = texts(names@);
                            let ghost x = name@;
                            Self::insert_name(&mut names, name);
                            proof {
                                lemma_add_text(prev_names, prev, x);
                                found = found.push(x);
                                assert(prev + (seq![x] + spec_fields(chars@.skip(pos as int)))
                                    =~= found + spec_fields(chars@.skip(pos as int)));
                            }
                        } else {
                            assert(found + (Seq::<Seq<char>>::empty() + spec_fields(chars@.skip(pos as int)))
                                =~= found + spec_fields(chars@.skip(pos as int)));
                        }
                    },
                    None => {
                        assert(chars@.skip(pos as int) =~= Seq::<char>::empty());
                        assert(found + Seq::<Seq<char>>::empty() =~= found);
                    },
                }
            }
        }
        assert(chars@.skip(pos as int) =~= Seq::<char>::empty());
        assert(found + Seq::<Seq<char>>::empty() =~= found);
        names
    }

    /// Reads a template: its text and the names of its fields.
    pub fn parse(format_str: String) -> (r: VariadicStringParams)
        ensures
            r.format_str == format_str,
            texts(r.field_names@).no_duplicates(),
            texts(r.field_names@).to_set() == spec_fields(format_str@).to_set(),
    {
        let field_names = Self::parse_format_string(format_str.as_str());
        VariadicStringParams { format_str, field_names }
    }
}

} // verus!
