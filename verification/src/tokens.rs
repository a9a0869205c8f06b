//! A plain model of token trees, the rendering of a token run back to text,
//! and the adjustment of a propagation relation type for use inside the
//! generated module.

use vstd::prelude::*;
use vstd::string::StringExecFns;
use vstd::string::StrSliceExecFns;

use crate::naming::push_char;

verus! {

/// One token tree. A group is kept whole, as its source text with its
/// delimiters.
#[derive(Debug)]
pub enum Tok {
    Ident(String),
    Punct { ch: char, joint: bool },
    Literal(String),
    Group(String),
}

/// The mathematical value of a [`Tok`].
pub enum TokV {
    Ident(Seq<char>),
    Punct { ch: char, joint: bool },
    Literal(Seq<char>),
    Group(Seq<char>),
}

impl View for Tok {
    type V = TokV;

    open spec fn view(&self) -> TokV {
        match self {
            Tok::Ident(s) => TokV::Ident(s@),
            Tok::Punct { ch, joint } => TokV::Punct { ch: *ch, joint: *joint },
            Tok::Literal(s) => TokV::Literal(s@),
            Tok::Group(s) => TokV::Group(s@),
        }
    }
}

/// The values of a run of tokens.
pub open spec fn toks_view(v: Seq<Tok>) -> Seq<TokV> {
    v.map_values(|t: Tok| t@)
}

/// Appending a token appends its value.
pub proof fn lemma_toks_view_push(s: Seq<Tok>, t: Tok)
    ensures
        toks_view(s.push(t)) == toks_view(s).push(t@),
{
    assert(toks_view(s.push(t)) =~= toks_view(s).push(t@));
}

/// A punctuation token with char `c`, whatever its spacing.
pub open spec fn is_punct(t: TokV, c: char) -> bool {
    t matches TokV::Punct { ch, .. } && ch == c
}

/// An identifier token spelled `s`.
pub open spec fn is_ident_named(t: TokV, s: Seq<char>) -> bool {
    t matches TokV::Ident(x) && x == s
}

/// `::` at `p`: a joint `:` followed by a `:`.
pub open spec fn is_path_sep(t: Seq<TokV>, p: int) -> bool {
    &&& 0 <= p
    &&& p + 1 < t.len()
    &&& t[p] == (TokV::Punct { ch: ':', joint: true })
    &&& is_punct(t[p + 1], ':')
}

/// Whether `t[p]` is a punctuation token with char `c`.
pub(crate) fn punct_at(t: &Vec<Tok>, p: usize, c: char) -> (r: bool)
    requires
        p < t@.len(),
    ensures
        r == is_punct(toks_view(t@)[p as int], c),
{
    match &t[p] {
        Tok::Punct { ch, .. } => *ch == c,
        _ => false,
    }
}

/// Exec form of [`is_path_sep`].
pub(crate) fn path_sep_at(t: &Vec<Tok>, p: usize) -> (r: bool)
    ensures
        r == is_path_sep(toks_view(t@), p as int),
{
    let n = t.len();
    if p >= n || p + 1 >= n {
        return false;
    }
    let first = match &t[p] {
        Tok::Punct { ch, joint } => *ch == ':' && *joint,
        _ => false,
    };
    assert(first == (toks_view(t@)[p as int] == (TokV::Punct { ch: ':', joint: true })));
    first && punct_at(t, p + 1, ':')
}

/// Text of one token.
pub open spec fn tok_text(t: TokV) -> Seq<char> {
    match t {
        TokV::Ident(s) => s,
        TokV::Punct { ch, .. } => seq![ch],
        TokV::Literal(s) => s,
        TokV::Group(s) => s,
    }
}

/// What follows a token when rendered: nothing after a joint punctuation
/// char, one space otherwise.
pub open spec fn tok_sep(t: TokV) -> Seq<char> {
    match t {
        TokV::Punct { joint, .. } => if joint { seq![] } else { seq![' '] },
        _ => seq![' '],
    }
}

/// Rendering of the first `n` tokens of `ts`.
pub open spec fn render_prefix(ts: Seq<TokV>, n: int) -> Seq<char>
    decreases n,
{
    if n <= 0 {
        seq![]
    } else {
        render_prefix(ts, n - 1) + tok_text(ts[n - 1]) + tok_sep(ts[n - 1])
    }
}

/// Source text of a token run: each token's text, followed by a space unless
/// it is a joint punctuation char.
pub open spec fn render(ts: Seq<TokV>) -> Seq<char> {
    render_prefix(ts, ts.len() as int)
}

/// Whether `s` is spelled `lit`.
pub fn text_eq(s: &String, lit: &str) -> (r: bool)
    ensures
        r == (s@ == lit@),
{
    let a = s.as_str();
    let n = a.unicode_len();
    if n != lit.unicode_len() {
        return false;
    }
    let mut i: usize = 0;
    while i < n
        invariant
            n == a@.len(),
            n == lit@.len(),
            a@ == s@,
            i <= n,
            forall|j: int| 0 <= j < i ==> a@[j] == lit@[j],
        decreases n - i,
    {
        if a.get_char(i) != lit.get_char(i) {
            return false;
        }
        i += 1;
    }
    assert(a@ =~= lit@);
    true
}

/// A copy of `t`.
pub fn copy_tok(t: &Tok) -> (r: Tok)
    ensures
        r@ == t@,
{
    match t {
        Tok::Ident(s) => Tok::Ident(s.clone()),
        Tok::Punct { ch, joint } => Tok::Punct { ch: *ch, joint: *joint },
        Tok::Literal(s) => Tok::Literal(s.clone()),
        Tok::Group(s) => Tok::Group(s.clone()),
    }
}

/// A copy of `ts[from..to]`.
pub fn copy_toks(ts: &Vec<Tok>, from: usize, to: usize) -> (r: Vec<Tok>)
    requires
        from <= to <= ts@.len(),
    ensures
        toks_view(r@) == toks_view(ts@).subrange(from as int, to as int),
{
    let mut r: Vec<Tok> = Vec::new();
    let mut i = from;
    while i < to
        invariant
            from <= i <= to <= ts@.len(),
            toks_view(r@) == toks_view(ts@).subrange(from as int, i as int),
        decreases to - i,
    {
        let ghost before = r@;
        let t = copy_tok(&ts[i]);
        r.push(t);
        proof {
            assert(r@ == before.push(t));
            lemma_toks_view_push(before, t);
            assert(toks_view(ts@)[i as int] == t@);
            assert(toks_view(r@) =~= toks_view(ts@).subrange(from as int, i + 1));
        }
        i += 1;
    }
    r
}

/// Renders `ts[from..]` as text.
pub fn render_from(ts: &Vec<Tok>, from: usize) -> (r: String)
    requires
        from <= ts@.len(),
    ensures
        r@ == render(toks_view(ts@).skip(from as int)),
{
    let ghost tail = toks_view(ts@).skip(from as int);
    let mut r = String::new();
    let mut i = from;
    while i < ts.len()
        invariant
            from <= i <= ts@.len(),
            tail == toks_view(ts@).skip(from as int),
            r@ == render_prefix(tail, i - from),
        decreases ts@.len() - i,
    {
        let ghost before = r@;
        match &ts[i] {
            Tok::Ident(s) => {
                r.append(s.as_str());
                push_char(&mut r, ' ');
            },
            Tok::Punct { ch, joint } => {
                push_char(&mut r, *ch);
                if !*joint {
                    push_char(&mut r, ' ');
                }
            },
            Tok::Literal(s) => {
                r.append(s.as_str());
                push_char(&mut r, ' ');
            },
            Tok::Group(s) => {
                r.append(s.as_str());
                push_char(&mut r, ' ');
            },
        }
        proof {
            assert(tail[i - from] == ts@[i as int]@);
            assert(r@ =~= before + tok_text(tail[i - from]) + tok_sep(tail[i - from]));
        }
        i += 1;
    }
    proof {
        assert(tail.len() == ts@.len() - from);
    }
    r
}

/// What the head of a parsed type is.
pub enum TypeHead {
    /// `& lifetime? mut? elem`
    Reference,
    /// A path type: whether it has a qualified self (`<T as Trait>::..`),
    /// whether its path starts with `::`, and the path's first segment (empty
    /// if none). For `<T as Trait>::X` the path is `Trait::X`; for `<T>::X`
    /// it is `::X`.
    Path { qualified: bool, leading_colon: bool, first: String },
    /// Any other type.
    Other,
}

/// The mathematical value of a [`TypeHead`].
pub enum TypeHeadV {
    Reference,
    Path { qualified: bool, leading_colon: bool, first: Seq<char> },
    Other,
}

impl View for TypeHead {
    type V = TypeHeadV;

    open spec fn view(&self) -> TypeHeadV {
        match self {
            TypeHead::Reference => TypeHeadV::Reference,
            TypeHead::Path { qualified, leading_colon, first } => TypeHeadV::Path {
                qualified: *qualified,
                leading_colon: *leading_colon,
                first: first@,
            },
            TypeHead::Other => TypeHeadV::Other,
        }
    }
}

/// The value of an optional [`TypeHead`].
pub open spec fn head_view(h: Option<TypeHead>) -> Option<TypeHeadV> {
    match h {
        Some(t) => Some(t@),
        None => None,
    }
}

/// An ASCII type name: an uppercase letter `A`..=`Z`, then ASCII letters,
/// digits or `_`.
pub open spec fn ascii_type_name(x: Seq<char>) -> bool {
    &&& x.len() > 0
    &&& 'A' <= x[0] && x[0] <= 'Z'
    &&& forall|i: int|
        1 <= i < x.len() ==> {
            let c = #[trigger] x[i];
            ('a' <= c && c <= 'z') || ('A' <= c && c <= 'Z') || ('0' <= c && c <= '9') || c == '_'
        }
}

/// A lifetime name for which the reading of a reference is stated: `static`
/// or one ASCII lowercase letter.
pub open spec fn short_lifetime(l: Seq<char>) -> bool {
    l == seq!['s', 't', 'a', 't', 'i', 'c'] || (l.len() == 1 && 'a' <= l[0] && l[0] <= 'z')
}

/// The text `& 'l mut Name ` of a reference: `&`, a space if `space`, the
/// lifetime `'l ` if any, `mut ` if `mutable`, then the name and a space.
pub open spec fn reference_text(
    space: bool,
    lifetime: Option<Seq<char>>,
    mutable: bool,
    name: Seq<char>,
) -> Seq<char> {
    seq!['&'] + (if space {
        seq![' ']
    } else {
        seq![]
    }) + match lifetime {
        Some(l) => seq!['\''] + l + seq![' '],
        None => seq![],
    } + (if mutable {
        seq!['m', 'u', 't', ' ']
    } else {
        seq![]
    }) + name + seq![' ']
}

/// `text` is the text of a reference to an ASCII type name, with at most a
/// short lifetime and `mut` between.
pub open spec fn name_reference_text(text: Seq<char>) -> bool {
    exists|space: bool, lifetime: Option<Seq<char>>, mutable: bool, name: Seq<char>|
        #[trigger] reference_text(space, lifetime, mutable, name) == text && ascii_type_name(name) && (
        lifetime matches Some(l) ==> short_lifetime(l))
}

/// Calls `syn::parse_str::<syn::Type>` on `text` and reports the head of the
/// parsed type (`None` where `text` is no type).
///
/// `syn` tokenizes through `proc-macro2`, which lexes with the compiler's
/// lexer inside a macro expansion and with its own lexer elsewhere (and can be
/// switched within a process); the two differ on identifiers that are not in
/// NFC form, so in general the head is not a function of the text alone.
/// Claimed, for ASCII text on which both lexers give the same tokens:
/// - an ASCII type name followed by a space lexes to one identifier, which
///   `syn` reads as a path type without qualified self or leading `::` whose
///   first segment is that identifier (`ambig_ty` takes identifiers and
///   `Self` as a `TypePath`; `Path::parse_helper`);
/// - `&`, an optional lifetime (`'static` or one lowercase letter), an
///   optional `mut` and such a name lex to `&`, `'` joined to an identifier,
///   `mut` and the name, which `syn` reads as a reference type
///   (`TypeReference::parse`).
/// Nothing is claimed of other text; [`insertion_step`] states what is done
/// with each possible head.
#[verifier::external_body]
fn parse_type_head(text: &String) -> (r: Option<TypeHead>)
    ensures
        text@.len() > 0 && text@.last() == ' ' && ascii_type_name(text@.drop_last()) ==> head_view(r)
            == Some(TypeHeadV::Path { qualified: false, leading_colon: false, first: text@.drop_last() }),
        name_reference_text(text@) ==> head_view(r) == Some(TypeHeadV::Reference),
{
    match syn::parse_str::<syn::Type>(text) {
        Ok(syn::Type::Reference(_)) => Some(TypeHead::Reference),
        Ok(syn::Type::Path(p)) => Some(TypeHead::Path {
            qualified: p.qself.is_some(),
            leading_colon: p.path.leading_colon.is_some(),
            first: p.path.segments.first().map_or(String::new(), |s| s.ident.to_string()),
        }),
        Ok(_) => Some(TypeHead::Other),
        Err(_) => None,
    }
}

/// Index just past the reference prefix `&`, optional lifetime (`'` joined to
/// an identifier) and optional `mut` of a reference type that starts at `k`.
pub open spec fn reference_prefix_end(ts: Seq<TokV>, k: int) -> int {
    let a = k + 1;
    let b = if a + 1 < ts.len() && ts[a] == (TokV::Punct { ch: '\'', joint: true })
        && ts[a + 1] is Ident {
        a + 2
    } else {
        a
    };
    if b < ts.len() && is_ident_named(ts[b], "mut"@) {
        b + 1
    } else {
        b
    }
}

/// Whether a path type whose path is described by `leading_colon` and
/// `first` already names its item from the crate root or the current module
/// hierarchy (`::..`, `crate::..`, `super::..`, `self::..`).
pub open spec fn path_is_anchored(leading_colon: bool, first: Seq<char>) -> bool {
    leading_colon || first == "crate"@ || first == "super"@ || first == "self"@
}

/// One step of the walk that finds where `super` goes into a relation type.
#[derive(Debug)]
pub enum InsertionStep {
    /// The type is a reference; its element type starts at this index.
    Descend(usize),
    /// `super` goes into the path type that starts at `at`; `qualified` tells
    /// whether it has a qualified self.
    Insert { at: usize, qualified: bool },
    /// The type is kept as it is written.
    Keep,
}

/// The mathematical value of an [`InsertionStep`].
pub enum InsertionStepV {
    Descend(int),
    Insert { at: int, qualified: bool },
    Keep,
}

impl View for InsertionStep {
    type V = InsertionStepV;

    open spec fn view(&self) -> InsertionStepV {
        match self {
            InsertionStep::Descend(e) => InsertionStepV::Descend(*e as int),
            InsertionStep::Insert { at, qualified } => InsertionStepV::Insert {
                at: *at as int,
                qualified: *qualified,
            },
            InsertionStep::Keep => InsertionStepV::Keep,
        }
    }
}

/// The step taken at `ts[k..]` when its text parses with head `head`: a
/// reference written with `&` is descended into; a path type that is not
/// anchored gets `super`; anything else, and a position past the end, keeps
/// the type as written.
pub open spec fn super_step(ts: Seq<TokV>, k: int, head: Option<TypeHeadV>) -> InsertionStepV {
    if 0 <= k < ts.len() {
        match head {
            Some(TypeHeadV::Reference) => if is_punct(ts[k], '&') {
                InsertionStepV::Descend(reference_prefix_end(ts, k))
            } else {
                InsertionStepV::Keep
            },
            Some(TypeHeadV::Path { qualified, leading_colon, first }) => if path_is_anchored(
                leading_colon,
                first,
            ) {
                InsertionStepV::Keep
            } else {
                InsertionStepV::Insert { at: k, qualified }
            },
            _ => InsertionStepV::Keep,
        }
    } else {
        InsertionStepV::Keep
    }
}

/// Following reference prefixes from `j` leads to `k`: `k` is `j`, or
/// `ts[j]` is `&` and the element type after the prefix leads to `k`.
pub open spec fn reaches(ts: Seq<TokV>, j: int, k: int) -> bool
    decreases k - j,
{
    if j == k {
        true
    } else if 0 <= j < k && j < ts.len() && is_punct(ts[j], '&') {
        let e = reference_prefix_end(ts, j);
        e <= k && reaches(ts, e, k)
    } else {
        false
    }
}

/// A chain that leads to the reference at `k` leads on to its element type.
pub proof fn lemma_reaches_step(ts: Seq<TokV>, j: int, k: int)
    requires
        reaches(ts, j, k),
        0 <= k < ts.len(),
        is_punct(ts[k], '&'),
    ensures
        reaches(ts, j, reference_prefix_end(ts, k)),
    decreases k - j,
{
    let e = reference_prefix_end(ts, k);
    if j == k {
        assert(reaches(ts, e, e));
    } else {
        let e1 = reference_prefix_end(ts, j);
        lemma_reaches_step(ts, e1, k);
    }
}

/// The tokens `super ::`.
pub open spec fn super_tokens() -> Seq<TokV> {
    seq![
        TokV::Ident("super"@),
        TokV::Punct { ch: ':', joint: true },
        TokV::Punct { ch: ':', joint: false },
    ]
}

/// `ts[i]` is a `>` that closes an angle bracket (not the `>` of `->`).
pub open spec fn is_closing_angle(ts: Seq<TokV>, i: int) -> bool {
    is_punct(ts[i], '>') && !(i > 0 && ts[i - 1] == (TokV::Punct { ch: '-', joint: true }))
}

/// How `ts[i]` changes the angle-bracket depth.
pub open spec fn angle_step(ts: Seq<TokV>, i: int) -> int {
    if is_punct(ts[i], '<') {
        1
    } else if is_closing_angle(ts, i) {
        -1
    } else {
        0
    }
}

/// Position of the `as` of a qualified self, scanning from `i` at
/// angle-bracket depth `depth` (the opening `<` counts 1).
pub open spec fn find_qself_as(ts: Seq<TokV>, i: int, depth: int) -> Option<int>
    decreases ts.len() - i,
{
    if i < 0 || i >= ts.len() || depth <= 0 {
        None
    } else if depth == 1 && is_ident_named(ts[i], "as"@) {
        Some(i)
    } else {
        find_qself_as(ts, i + 1, depth + angle_step(ts, i))
    }
}

/// Scanning the trait path after `as` from `i` at depth `depth`: the
/// position of its last `::` at depth 1 (if any, `last_sep` so far) and of
/// the `>` that closes the qualified self.
pub open spec fn find_qself_end(ts: Seq<TokV>, i: int, depth: int, last_sep: Option<int>) -> Option<
    (Option<int>, int),
>
    decreases ts.len() - i,
{
    if i < 0 || i >= ts.len() || depth <= 0 {
        None
    } else if depth == 1 && is_closing_angle(ts, i) {
        Some((last_sep, i))
    } else if depth == 1 && is_path_sep(ts, i) {
        find_qself_end(ts, i + 1, depth, Some(i))
    } else {
        find_qself_end(ts, i + 1, depth + angle_step(ts, i), last_sep)
    }
}

/// The qualified path type `< T as S1 :: .. :: Sn > :: rest` that starts at
/// `k` with `super` made the first segment of its path. The qualified self
/// keeps covering `n` segments, so the `>` moves one segment back:
/// `< T as super :: S1 :: .. :: Sn-1 > :: Sn :: rest` (for `n` = 1:
/// `< T as super > :: S1 :: rest`).
pub open spec fn qualified_with_super(ts: Seq<TokV>, k: int) -> Seq<TokV> {
    match find_qself_as(ts, k + 1, 1) {
        Some(x) => match find_qself_end(ts, x + 1, 1, None) {
            Some((None, c)) => ts.take(x + 1) + seq![TokV::Ident("super"@), ts[c]] + seq![
                TokV::Punct { ch: ':', joint: true },
                TokV::Punct { ch: ':', joint: false },
            ] + ts.subrange(x + 1, c) + ts.skip(c + 1),
            Some((Some(b), c)) => ts.take(x + 1) + super_tokens() + ts.subrange(x + 1, b) + seq![
                ts[c],
            ] + ts.subrange(b, c) + ts.skip(c + 1),
            None => ts,
        },
        None => ts,
    }
}

/// `ts` with `super` made the first segment of the path of the path type
/// that starts at `k`; `qualified` tells whether that type has a qualified
/// self.
pub open spec fn with_super_at(ts: Seq<TokV>, k: int, qualified: bool) -> Seq<TokV> {
    if qualified {
        qualified_with_super(ts, k)
    } else {
        ts.take(k) + super_tokens() + ts.skip(k)
    }
}

/// A relation type written as an ASCII type name, alone or behind one
/// reference prefix: `&`, at most a `'static` or one-letter lifetime, and at
/// most `mut`.
pub open spec fn plain_relation(ts: Seq<TokV>) -> bool {
    &&& ts.len() > 0
    &&& ts.last() matches TokV::Ident(name) && ascii_type_name(name)
    &&& ts.len() > 1 ==> {
        &&& is_punct(ts[0], '&')
        &&& reference_prefix_end(ts, 0) == ts.len() - 1
        &&& (ts.len() > 3 && ts[1] == (TokV::Punct { ch: '\'', joint: true })) ==> (ts[2] matches TokV::Ident(
            l,
        ) && short_lifetime(l))
    }
}

/// What the relation type `raw` can become inside the generated module: it
/// is kept as written, or `super` goes into the path type at a position that
/// a chain of reference prefixes from the start leads to. A relation written
/// as an ASCII type name, alone or behind one reference prefix, always gets
/// `super` in front of the name.
pub open spec fn relation_outcome(raw: Seq<TokV>, r: Seq<TokV>) -> bool {
    &&& plain_relation(raw) ==> r == with_super_at(raw, raw.len() - 1, false)
    &&& {
        ||| r == raw
        ||| exists|k: int, q: bool|
            0 <= k < raw.len() && reaches(raw, 0, k) && r == #[trigger] with_super_at(raw, k, q)
    }
}

/// Rendering one more token appends its text and separator.
proof fn lemma_render_push(ts: Seq<TokV>, t: TokV)
    ensures
        render(ts.push(t)) == render(ts) + tok_text(t) + tok_sep(t),
{
    lemma_render_prefix_same(ts, t, ts.len() as int);
}

/// The first `n` tokens render the same after a push.
proof fn lemma_render_prefix_same(ts: Seq<TokV>, t: TokV, n: int)
    requires
        0 <= n <= ts.len(),
    ensures
        render_prefix(ts.push(t), n) == render_prefix(ts, n),
    decreases n,
{
    if n > 0 {
        lemma_render_prefix_same(ts, t, n - 1);
        assert(ts.push(t)[n - 1] == ts[n - 1]);
    }
}

/// An ASCII type name is not anchored.
proof fn lemma_type_name_not_anchored(x: Seq<char>)
    requires
        ascii_type_name(x),
    ensures
        !path_is_anchored(false, x),
{
    reveal_strlit("crate");
    reveal_strlit("super");
    reveal_strlit("self");
    if x == "crate"@ || x == "super"@ || x == "self"@ {
        assert(x[0] == 'c' || x[0] == 's');
    }
}

/// The texts that the walk over a plain relation parses: the name alone, and
/// (behind a reference prefix) the whole reference.
proof fn lemma_plain_relation_texts(v: Seq<TokV>)
    requires
        plain_relation(v),
    ensures
        ({
            let text = render(v.skip(v.len() - 1));
            &&& text.len() > 0 && text.last() == ' '
            &&& ascii_type_name(text.drop_last())
            &&& text.drop_last() == tok_text(v.last())
        }),
        v.len() > 1 ==> name_reference_text(render(v)),
        v.len() > 1 ==> reference_prefix_end(v, 0) == v.len() - 1,
{
    let n = v.len() as int;
    let name = tok_text(v.last());
    let last = seq![v.last()];
    assert(v.skip(n - 1) =~= last);
    lemma_render_push(Seq::<TokV>::empty(), v.last());
    assert(Seq::<TokV>::empty().push(v.last()) =~= last);
    assert(render(Seq::<TokV>::empty()) == Seq::<char>::empty());
    assert(render(last) =~= name + seq![' ']);
    assert((name + seq![' ']).drop_last() =~= name);
    if n > 1 {
        reveal_strlit("mut");
        let space = v[0] matches TokV::Punct { joint, .. } && !joint;
        let has_lt = n > 3 && v[1] == (TokV::Punct { ch: '\'', joint: true });
        let lifetime = if has_lt {
            Some(tok_text(v[2]))
        } else {
            None
        };
        let mutable = !has_lt && n == 3 || has_lt && n == 5;
        assert(v.take(1) =~= seq![v[0]]);
        lemma_render_push(Seq::<TokV>::empty(), v[0]);
        assert(Seq::<TokV>::empty().push(v[0]) =~= seq![v[0]]);
        let t = reference_text(space, lifetime, mutable, name);
        if n == 2 {
            lemma_render_push(v.take(1), v[1]);
            assert(v.take(1).push(v[1]) =~= v);
            assert(render(v) =~= t);
        } else if n == 3 {
            lemma_render_push(v.take(1), v[1]);
            lemma_render_push(v.take(2), v[2]);
            assert(v.take(1).push(v[1]) =~= v.take(2));
            assert(v.take(2).push(v[2]) =~= v);
            assert(render(v) =~= t);
        } else if n == 4 {
            lemma_render_push(v.take(1), v[1]);
            lemma_render_push(v.take(2), v[2]);
            lemma_render_push(v.take(3), v[3]);
            assert(v.take(1).push(v[1]) =~= v.take(2));
            assert(v.take(2).push(v[2]) =~= v.take(3));
            assert(v.take(3).push(v[3]) =~= v);
            assert(render(v) =~= t);
        } else {
            lemma_render_push(v.take(1), v[1]);
            lemma_render_push(v.take(2), v[2]);
            lemma_render_push(v.take(3), v[3]);
            lemma_render_push(v.take(4), v[4]);
            assert(v.take(1).push(v[1]) =~= v.take(2));
            assert(v.take(2).push(v[2]) =~= v.take(3));
            assert(v.take(3).push(v[3]) =~= v.take(4));
            assert(v.take(4).push(v[4]) =~= v);
            assert(render(v) =~= t);
        }
        assert(name_reference_text(render(v)));
    }
}

/// Exec form of [`reference_prefix_end`].
fn reference_prefix_end_exec(ts: &Vec<Tok>, k: usize) -> (r: usize)
    requires
        k < ts@.len(),
    ensures
        r as int == reference_prefix_end(toks_view(ts@), k as int),
        k < r <= ts@.len(),
{
    let ghost v = toks_view(ts@);
    let n = ts.len();
    let a = k + 1;
    let mut b = a;
    if a < n && a + 1 < n {
        let is_tick = match &ts[a] {
            Tok::Punct { ch, joint } => *ch == '\'' && *joint,
            _ => false,
        };
        let is_id = match &ts[a + 1] {
            Tok::Ident(_) => true,
            _ => false,
        };
        assert(is_tick == (v[a as int] == (TokV::Punct { ch: '\'', joint: true })));
        assert(is_id == (v[a + 1] is Ident));
        if is_tick && is_id {
            b = a + 2;
        }
    }
    if b < n {
        let is_mut = match &ts[b] {
            Tok::Ident(s) => text_eq(s, "mut"),
            _ => false,
        };
        assert(is_mut == is_ident_named(v[b as int], "mut"@));
        if is_mut {
            b = b + 1;
        }
    }
    b
}

/// The step taken at `ts[k..]` when its text parses with head `head`; see
/// [`super_step`].
pub fn insertion_step(ts: &Vec<Tok>, k: usize, head: &Option<TypeHead>) -> (r: InsertionStep)
    ensures
        r@ == super_step(toks_view(ts@), k as int, head_view(*head)),
{
    if k >= ts.len() {
        return InsertionStep::Keep;
    }
    match head {
        Some(TypeHead::Reference) => {
            if punct_at(ts, k, '&') {
                InsertionStep::Descend(reference_prefix_end_exec(ts, k))
            } else {
                InsertionStep::Keep
            }
        },
        Some(TypeHead::Path { qualified, leading_colon, first }) => {
            let anchored = *leading_colon || text_eq(first, "crate") || text_eq(first, "super")
                || text_eq(first, "self");
            assert(anchored == path_is_anchored(*leading_colon, first@));
            if anchored {
                InsertionStep::Keep
            } else {
                InsertionStep::Insert { at: k, qualified: *qualified }
            }
        },
        _ => InsertionStep::Keep,
    }
}

/// Exec form of [`is_closing_angle`].
fn closing_angle_at(ts: &Vec<Tok>, i: usize) -> (r: bool)
    requires
        i < ts@.len(),
    ensures
        r == is_closing_angle(toks_view(ts@), i as int),
{
    if !punct_at(ts, i, '>') {
        return false;
    }
    if i == 0 {
        return true;
    }
    let arrow = match &ts[i - 1] {
        Tok::Punct { ch, joint } => *ch == '-' && *joint,
        _ => false,
    };
    assert(arrow == (toks_view(ts@)[i - 1] == (TokV::Punct { ch: '-', joint: true })));
    !arrow
}

/// Exec form of [`find_qself_as`] from `start` at depth 1.
fn qself_as(ts: &Vec<Tok>, start: usize) -> (r: Option<usize>)
    requires
        1 <= start,
    ensures
        match r {
            Some(x) => find_qself_as(toks_view(ts@), start as int, 1) == Some(x as int) && start
                <= x < ts@.len(),
            None => find_qself_as(toks_view(ts@), start as int, 1) is None,
        },
{
    let ghost v = toks_view(ts@);
    let n = ts.len();
    let mut i = start;
    let mut depth: usize = 1;
    while i < n
        invariant
            v == toks_view(ts@),
            n == ts@.len(),
            1 <= start <= i,
            1 <= depth <= i - start + 1,
            find_qself_as(v, start as int, 1) == find_qself_as(v, i as int, depth as int),
        decreases n - i,
    {
        if depth == 1 {
            let is_as = match &ts[i] {
                Tok::Ident(s) => text_eq(s, "as"),
                _ => false,
            };
            assert(is_as == is_ident_named(v[i as int], "as"@));
            if is_as {
                return Some(i);
            }
        }
        if punct_at(ts, i, '<') {
            depth = depth + 1;
        } else if closing_angle_at(ts, i) {
            if depth == 1 {
                assert(find_qself_as(v, i + 1, 0) is None);
                return None;
            }
            depth = depth - 1;
        }
        i += 1;
    }
    None
}

/// Exec form of [`find_qself_end`] from `start` at depth 1.
fn qself_end(ts: &Vec<Tok>, start: usize) -> (r: Option<(Option<usize>, usize)>)
    requires
        1 <= start,
    ensures
        match r {
            Some((sep, c)) => {
                &&& find_qself_end(toks_view(ts@), start as int, 1, None) == Some(
                    (
                        match sep {
                            Some(b) => Some(b as int),
                            None => None::<int>,
                        },
                        c as int,
                    ),
                )
                &&& start <= c < ts@.len()
                &&& sep matches Some(b) ==> start <= b < c
            },
            None => find_qself_end(toks_view(ts@), start as int, 1, None) is None,
        },
{
    let ghost v = toks_view(ts@);
    let n = ts.len();
    let mut i = start;
    let mut depth: usize = 1;
    let mut last: Option<usize> = None;
    while i < n
        invariant
            v == toks_view(ts@),
            n == ts@.len(),
            1 <= start <= i,
            1 <= depth <= i - start + 1,
            last matches Some(b) ==> start <= b < i,
            find_qself_end(v, start as int, 1, None) == find_qself_end(
                v,
                i as int,
                depth as int,
                match last {
                    Some(b) => Some(b as int),
                    None => None::<int>,
                },
            ),
        decreases n - i,
    {
        let closing = closing_angle_at(ts, i);
        if depth == 1 && closing {
            return Some((last, i));
        }
        if depth == 1 && path_sep_at(ts, i) {
            last = Some(i);
        } else if punct_at(ts, i, '<') {
            depth = depth + 1;
        } else if closing {
            depth = depth - 1;
        }
        i += 1;
    }
    None
}

/// Appends `ts[from..to]` to `r`.
fn append_toks(r: &mut Vec<Tok>, ts: &Vec<Tok>, from: usize, to: usize)
    requires
        from <= to <= ts@.len(),
    ensures
        toks_view(final(r)@) == toks_view(old(r)@) + toks_view(ts@).subrange(from as int, to as int),
{
    let ghost start = toks_view(r@);
    let mut i = from;
    while i < to
        invariant
            from <= i <= to <= ts@.len(),
            toks_view(r@) == start + toks_view(ts@).subrange(from as int, i as int),
        decreases to - i,
    {
        let ghost before = r@;
        let t = copy_tok(&ts[i]);
        r.push(t);
        proof {
            assert(r@ == before.push(t));
            lemma_toks_view_push(before, t);
            assert(toks_view(ts@)[i as int] == t@);
            assert(toks_view(r@) =~= start + toks_view(ts@).subrange(from as int, i + 1));
        }
        i += 1;
    }
}

/// Appends the token `t` to `r`.
fn push_tok(r: &mut Vec<Tok>, t: Tok)
    ensures
        toks_view(final(r)@) == toks_view(old(r)@).push(t@),
{
    let ghost before = r@;
    r.push(t);
    proof {
        lemma_toks_view_push(before, t);
    }
}

/// Appends `super ::` to `r`.
fn push_super_path_start(r: &mut Vec<Tok>)
    ensures
        toks_view(final(r)@) == toks_view(old(r)@) + super_tokens(),
{
    let ghost before = toks_view(r@);
    push_tok(r, Tok::Ident(String::from_str("super")));
    push_tok(r, Tok::Punct { ch: ':', joint: true });
    push_tok(r, Tok::Punct { ch: ':', joint: false });
    assert(toks_view(r@) =~= before + super_tokens());
}

/// The qualified path at `k` with `super` as its path's first segment; see
/// [`qualified_with_super`].
fn qualified_super(ts: &Vec<Tok>, k: usize) -> (r: Vec<Tok>)
    requires
        k < ts@.len(),
    ensures
        toks_view(r@) == qualified_with_super(toks_view(ts@), k as int),
{
    let ghost v = toks_view(ts@);
    let n = ts.len();
    if k + 1 >= n {
        proof {
            assert(find_qself_as(v, k + 1, 1) is None);
        }
        return copy_toks(ts, 0, n);
    }
    let x = match qself_as(ts, k + 1) {
        Some(x) => x,
        None => {
            return copy_toks(ts, 0, n);
        },
    };
    let (sep, c) = match qself_end(ts, x + 1) {
        Some(found) => found,
        None => {
            return copy_toks(ts, 0, n);
        },
    };
    let mut r: Vec<Tok> = Vec::new();
    proof {
        assert(toks_view(r@) =~= Seq::<TokV>::empty());
    }
    append_toks(&mut r, ts, 0, x + 1);
    match sep {
        None => {
            push_tok(&mut r, Tok::Ident(String::from_str("super")));
            push_tok(&mut r, copy_tok(&ts[c]));
            push_tok(&mut r, Tok::Punct { ch: ':', joint: true });
            push_tok(&mut r, Tok::Punct { ch: ':', joint: false });
            append_toks(&mut r, ts, x + 1, c);
            append_toks(&mut r, ts, c + 1, n);
            proof {
                assert(v.take(x + 1) =~= Seq::<TokV>::empty() + v.subrange(0, x + 1));
                assert(v.skip(c + 1) =~= v.subrange(c + 1, n as int));
                assert(toks_view(r@) =~= qualified_with_super(v, k as int));
            }
        },
        Some(b) => {
            push_super_path_start(&mut r);
            append_toks(&mut r, ts, x + 1, b);
            push_tok(&mut r, copy_tok(&ts[c]));
            append_toks(&mut r, ts, b, c);
            append_toks(&mut r, ts, c + 1, n);
            proof {
                assert(v.take(x + 1) =~= Seq::<TokV>::empty() + v.subrange(0, x + 1));
                assert(v.skip(c + 1) =~= v.subrange(c + 1, n as int));
                assert(toks_view(r@) =~= qualified_with_super(v, k as int));
            }
        },
    }
    r
}

/// `ts` with `super` put into the path type that starts at `k`; see
/// [`with_super_at`].
pub fn insert_super_at(ts: &Vec<Tok>, k: usize, qualified: bool) -> (r: Vec<Tok>)
    requires
        k < ts@.len(),
    ensures
        toks_view(r@) == with_super_at(toks_view(ts@), k as int, qualified),
{
    let ghost v = toks_view(ts@);
    if qualified {
        return qualified_super(ts, k);
    }
    let mut r: Vec<Tok> = Vec::new();
    proof {
        assert(toks_view(r@) =~= Seq::<TokV>::empty());
    }
    append_toks(&mut r, ts, 0, k);
    push_super_path_start(&mut r);
    append_toks(&mut r, ts, k, ts.len());
    proof {
        assert(v.take(k as int) =~= Seq::<TokV>::empty() + v.subrange(0, k as int));
        assert(v.skip(k as int) =~= v.subrange(k as int, v.len() as int));
    }
    r
}

/// The relation type `ts` as written inside the generated module. The text
/// from each position is parsed as a type: references are followed down to
/// their element type, and a path type that is not anchored gets `super` as
/// its first segment (see [`insertion_step`]); anything else is kept as
/// written.
pub fn relation_for_module(ts: &Vec<Tok>) -> (r: Vec<Tok>)
    ensures
        relation_outcome(toks_view(ts@), toks_view(r@)),
{
    let ghost v = toks_view(ts@);
    proof {
        if plain_relation(v) {
            lemma_plain_relation_texts(v);
            lemma_type_name_not_anchored(tok_text(v.last()));
            assert(v.skip(0) =~= v);
        }
    }
    let mut k: usize = 0;
    loop
        invariant
            k <= ts@.len(),
            v == toks_view(ts@),
            reaches(v, 0, k as int),
            plain_relation(v) ==> (k == 0 || (v.len() > 1 && k == v.len() - 1)),
            plain_relation(v) ==> {
                let text = render(v.skip(v.len() - 1));
                &&& text.len() > 0 && text.last() == ' '
                &&& ascii_type_name(text.drop_last())
                &&& text.drop_last() == tok_text(v.last())
                &&& !path_is_anchored(false, text.drop_last())
                &&& v.len() > 1 ==> name_reference_text(render(v.skip(0)))
                &&& v.len() > 1 ==> reference_prefix_end(v, 0) == v.len() - 1
            },
        decreases ts@.len() - k,
    {
        if k >= ts.len() {
            let r = copy_toks(ts, 0, ts.len());
            assert(toks_view(r@) =~= v);
            return r;
        }
        let text = render_from(ts, k);
        let head = parse_type_head(&text);
        let step = insertion_step(ts, k, &head);
        proof {
            if plain_relation(v) {
                if v.len() > 1 && k == 0 {
                    assert(step@ == InsertionStepV::Descend(v.len() - 1));
                } else {
                    if k == 0 {
                        assert(v.skip(0) == v.skip(v.len() - 1));
                    }
                    assert(step@ == (InsertionStepV::Insert { at: v.len() - 1, qualified: false }));
                }
            }
        }
        match step {
            InsertionStep::Descend(e) => {
                proof {
                    lemma_reaches_step(v, 0, k as int);
                }
                k = e;
            },
            InsertionStep::Insert { at, qualified } => {
                let r = insert_super_at(ts, at, qualified);
                assert(relation_outcome(v, toks_view(r@))) by {
                    assert(0 <= k < v.len() && reaches(v, 0, k as int) && toks_view(r@)
                        == with_super_at(v, k as int, qualified));
                }
                return r;
            },
            InsertionStep::Keep => {
                let r = copy_toks(ts, 0, ts.len());
                assert(toks_view(r@) =~= v);
                return r;
            },
        }
    }
}

} // verus!
