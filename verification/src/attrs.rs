//! Attributes as the derive input carries them, and the reading of the
//! nested `#[enum_event(..)]` syntax on the enum, its variants and fields.

use vstd::prelude::*;

use crate::tokens::{
    copy_toks, is_path_sep, is_punct, path_sep_at, punct_at, text_eq, toks_view, Tok, TokV,
};

verus! {

/// What follows the path of an attribute.
pub enum AttrArgs {
    /// `#[path]`
    Word,
    /// `#[path = value]`
    NameValue,
    /// `#[path(tokens)]` (or with brackets or braces): the tokens inside.
    List(Vec<Tok>),
}

/// One outer attribute: the identifiers of its path, and its arguments.
pub struct AttrInput {
    pub path: Vec<String>,
    pub args: AttrArgs,
}

/// The mathematical value of [`AttrArgs`].
pub enum AttrArgsV {
    Word,
    NameValue,
    List(Seq<TokV>),
}

/// The mathematical value of [`AttrInput`].
pub struct AttrV {
    pub path: Seq<Seq<char>>,
    pub args: AttrArgsV,
}

impl View for AttrArgs {
    type V = AttrArgsV;

    open spec fn view(&self) -> AttrArgsV {
        match self {
            AttrArgs::Word => AttrArgsV::Word,
            AttrArgs::NameValue => AttrArgsV::NameValue,
            AttrArgs::List(t) => AttrArgsV::List(toks_view(t@)),
        }
    }
}

impl View for AttrInput {
    type V = AttrV;

    open spec fn view(&self) -> AttrV {
        AttrV { path: self.path@.map_values(|s: String| s@), args: self.args@ }
    }
}

/// The values of a list of attributes.
pub open spec fn attrs_view(v: Seq<AttrInput>) -> Seq<AttrV> {
    v.map_values(|a: AttrInput| a@)
}

/// Where an `#[enum_event(..)]` attribute stands; each place knows other
/// properties.
#[derive(Clone, Copy, PartialEq, Eq, Structural)]
pub enum MetaLevel {
    /// On the enum: `propagate`, `propagate = <type>`, `auto_propagate`;
    /// anything else is refused.
    Container,
    /// On a variant: the same properties; anything else is ignored.
    Variant,
    /// On a field: `target`; anything else is ignored.
    Field,
}

/// Why an `#[enum_event(..)]` attribute could not be read.
#[derive(Clone, Copy, PartialEq, Eq, Structural, Debug)]
pub enum MetaError {
    /// The attribute has no arguments at all.
    ExpectedParens,
    /// The attribute is written `#[enum_event = ..]`.
    ExpectedParensNotValue,
    /// A property is missing where one was expected.
    ExpectedNestedAttribute,
    /// A literal stands where a property name was expected.
    UnexpectedLiteral,
    /// Another token stands where a property name was expected.
    UnexpectedToken,
    /// `::` in a property path is not followed by an identifier.
    ExpectedIdent,
    /// A property is not followed by `,` or the end.
    ExpectedComma,
    /// An unknown property on the enum.
    UnknownAttribute,
}

/// The properties read so far.
pub struct MetaFlags {
    /// `propagate` (empty tokens) or `propagate = <tokens>`.
    pub propagate: Option<Vec<Tok>>,
    pub auto_propagate: bool,
    pub target: bool,
}

/// The mathematical value of [`MetaFlags`].
pub struct MetaFlagsV {
    pub propagate: Option<Seq<TokV>>,
    pub auto_propagate: bool,
    pub target: bool,
}

impl View for MetaFlags {
    type V = MetaFlagsV;

    open spec fn view(&self) -> MetaFlagsV {
        MetaFlagsV {
            propagate: match self.propagate {
                Some(t) => Some(toks_view(t@)),
                None => None,
            },
            auto_propagate: self.auto_propagate,
            target: self.target,
        }
    }
}

/// No property set.
pub open spec fn no_flags() -> MetaFlagsV {
    MetaFlagsV { propagate: None, auto_propagate: false, target: false }
}

/// A literal starts at `p`: a literal token, or `-` followed by a numeric
/// literal.
pub open spec fn starts_literal(t: Seq<TokV>, p: int) -> bool {
    ||| t[p] is Literal
    ||| is_punct(t[p], '-') && p + 1 < t.len() && match t[p + 1] {
        TokV::Literal(x) => x.len() > 0 && '0' <= x[0] && x[0] <= '9',
        _ => false,
    }
}

/// The rest of a property path after its identifier `last` at `p - 1`:
/// further `:: ident` pairs. Gives the last identifier and where the path
/// ends.
pub open spec fn meta_path_tail(t: Seq<TokV>, p: int, last: Seq<char>) -> Result<
    (Seq<char>, int),
    MetaError,
>
    decreases t.len() - p,
{
    if is_path_sep(t, p) {
        if p + 2 < t.len() {
            match t[p + 2] {
                TokV::Ident(id) => meta_path_tail(t, p + 3, id),
                _ => Err(MetaError::ExpectedIdent),
            }
        } else {
            Err(MetaError::ExpectedIdent)
        }
    } else {
        Ok((last, p))
    }
}

/// A property path at `p`: an optional leading `::`, then identifiers joined
/// by `::`. Gives its last identifier and where it ends.
pub open spec fn meta_path(t: Seq<TokV>, p: int) -> Result<(Seq<char>, int), MetaError> {
    let q = if is_path_sep(t, p) {
        p + 2
    } else {
        p
    };
    if q >= t.len() {
        Err(MetaError::ExpectedNestedAttribute)
    } else {
        match t[q] {
            TokV::Ident(id) => meta_path_tail(t, q + 1, id),
            _ => if starts_literal(t, q) {
                Err(MetaError::UnexpectedLiteral)
            } else {
                Err(MetaError::UnexpectedToken)
            },
        }
    }
}

/// The effect of a property named `name` whose path ends at `p`: the new
/// flags and where reading goes on.
pub open spec fn apply_property(
    t: Seq<TokV>,
    p: int,
    name: Seq<char>,
    level: MetaLevel,
    st: MetaFlagsV,
) -> Result<(MetaFlagsV, int), MetaError> {
    if level == MetaLevel::Field {
        if name == "target"@ {
            Ok((MetaFlagsV { target: true, ..st }, p))
        } else {
            Ok((st, p))
        }
    } else if name == "auto_propagate"@ {
        Ok((MetaFlagsV { auto_propagate: true, ..st }, p))
    } else if name == "propagate"@ {
        if p < t.len() && is_punct(t[p], '=') {
            Ok((MetaFlagsV { propagate: Some(t.subrange(p + 1, t.len() as int)), ..st }, t.len() as int))
        } else {
            Ok((MetaFlagsV { propagate: Some(seq![]), ..st }, p))
        }
    } else if level == MetaLevel::Container {
        Err(MetaError::UnknownAttribute)
    } else {
        Ok((st, p))
    }
}

/// A property path that reads successfully ends after where it starts.
pub proof fn lemma_meta_path_tail_advances(t: Seq<TokV>, p: int, last: Seq<char>)
    ensures
        meta_path_tail(t, p, last) matches Ok((_, e)) ==> p <= e && (p <= t.len() ==> e
            <= t.len()),
    decreases t.len() - p,
{
    if is_path_sep(t, p) && p + 2 < t.len() {
        if let TokV::Ident(id) = t[p + 2] {
            lemma_meta_path_tail_advances(t, p + 3, id);
        }
    }
}

/// A property path that reads successfully ends after where it starts.
pub proof fn lemma_meta_path_advances(t: Seq<TokV>, p: int)
    requires
        0 <= p < t.len(),
    ensures
        meta_path(t, p) matches Ok((_, e)) ==> p < e <= t.len(),
{
    let q = if is_path_sep(t, p) {
        p + 2
    } else {
        p
    };
    if q < t.len() {
        if let TokV::Ident(id) = t[q] {
            lemma_meta_path_tail_advances(t, q + 1, id);
        }
    }
}

/// Reading the comma-separated properties from `p` on, starting from `st`.
pub open spec fn meta_list_from(t: Seq<TokV>, p: int, level: MetaLevel, st: MetaFlagsV) -> Result<
    MetaFlagsV,
    MetaError,
>
    decreases t.len() - p,
{
    if 0 <= p < t.len() {
        match meta_path(t, p) {
            Err(e) => Err(e),
            Ok((name, p1)) => match apply_property(t, p1, name, level, st) {
                Err(e) => Err(e),
                Ok((st2, p2)) => if p2 >= t.len() {
                    Ok(st2)
                } else if is_punct(t[p2], ',') {
                    if p2 + 1 >= t.len() {
                        Ok(st2)
                    } else {
                        proof {
                            lemma_meta_path_advances(t, p);
                        }
                        meta_list_from(t, p2 + 1, level, st2)
                    }
                } else {
                    Err(MetaError::ExpectedComma)
                },
            },
        }
    } else {
        Ok(st)
    }
}

/// Reading the whole argument tokens `t` of an attribute: empty tokens set
/// nothing.
pub open spec fn meta_list(t: Seq<TokV>, level: MetaLevel, st: MetaFlagsV) -> Result<
    MetaFlagsV,
    MetaError,
> {
    meta_list_from(t, 0, level, st)
}

/// Reading one `#[enum_event..]` attribute.
pub open spec fn attr_meta(a: AttrV, level: MetaLevel, st: MetaFlagsV) -> Result<
    MetaFlagsV,
    MetaError,
> {
    match a.args {
        AttrArgsV::Word => Err(MetaError::ExpectedParens),
        AttrArgsV::NameValue => Err(MetaError::ExpectedParensNotValue),
        AttrArgsV::List(t) => meta_list(t, level, st),
    }
}

/// The last identifier of the attribute's path is `name`.
pub open spec fn attr_named(a: AttrV, name: Seq<char>) -> bool {
    a.path.len() > 0 && a.path.last() == name
}

/// The value of the outcome of reading properties.
pub open spec fn flags_result_view(r: Result<MetaFlags, MetaError>) -> Result<MetaFlagsV, MetaError> {
    match r {
        Ok(f) => Ok(f@),
        Err(e) => Err(e),
    }
}

/// Exec form of [`starts_literal`].
fn literal_at(t: &Vec<Tok>, p: usize) -> (r: bool)
    requires
        p < t@.len(),
    ensures
        r == starts_literal(toks_view(t@), p as int),
{
    let ghost v = toks_view(t@);
    match &t[p] {
        Tok::Literal(_) => true,
        _ => {
            if !punct_at(t, p, '-') || p >= t.len() - 1 {
                return false;
            }
            match &t[p + 1] {
                Tok::Literal(x) => {
                    let xs = x.as_str();
                    if xs.unicode_len() == 0 {
                        return false;
                    }
                    let c = xs.get_char(0);
                    '0' <= c && c <= '9'
                },
                _ => false,
            }
        },
    }
}

/// Reads the property path at `p`; see [`meta_path`].
fn read_meta_path(t: &Vec<Tok>, p: usize) -> (r: Result<(String, usize), MetaError>)
    requires
        p < t@.len(),
    ensures
        match r {
            Ok((name, e)) => meta_path(toks_view(t@), p as int) == Ok::<
                (Seq<char>, int),
                MetaError,
            >((name@, e as int)),
            Err(err) => meta_path(toks_view(t@), p as int) == Err::<(Seq<char>, int), MetaError>(
                err,
            ),
        },
{
    let ghost v = toks_view(t@);
    let n = t.len();
    let q = if path_sep_at(t, p) {
        p + 2
    } else {
        p
    };
    if q >= n {
        return Err(MetaError::ExpectedNestedAttribute);
    }
    match &t[q] {
        Tok::Ident(id) => {
            let mut last = id.clone();
            let mut e = q + 1;
            loop
                invariant
                    v == toks_view(t@),
                    n == t@.len(),
                    q < e <= n,
                    meta_path(v, p as int) == meta_path_tail(v, e as int, last@),
                decreases n - e,
            {
                if !path_sep_at(t, e) {
                    return Ok((last, e));
                }
                if e + 2 >= n {
                    return Err(MetaError::ExpectedIdent);
                }
                match &t[e + 2] {
                    Tok::Ident(id2) => {
                        last = id2.clone();
                        e = e + 3;
                    },
                    _ => {
                        return Err(MetaError::ExpectedIdent);
                    },
                }
            }
        },
        _ => {
            if literal_at(t, q) {
                Err(MetaError::UnexpectedLiteral)
            } else {
                Err(MetaError::UnexpectedToken)
            }
        },
    }
}

/// Applies the property `name` whose path ends at `p`; see
/// [`apply_property`].
fn apply_property_exec(t: &Vec<Tok>, p: usize, name: &String, level: MetaLevel, st: MetaFlags) -> (r:
    Result<(MetaFlags, usize), MetaError>)
    requires
        p <= t@.len(),
    ensures
        match r {
            Ok((f, e)) => apply_property(toks_view(t@), p as int, name@, level, st@) == Ok::<
                (MetaFlagsV, int),
                MetaError,
            >((f@, e as int)),
            Err(err) => apply_property(toks_view(t@), p as int, name@, level, st@) == Err::<
                (MetaFlagsV, int),
                MetaError,
            >(err),
        },
{
    let mut st = st;
    if level == MetaLevel::Field {
        if text_eq(name, "target") {
            st.target = true;
        }
        Ok((st, p))
    } else if text_eq(name, "auto_propagate") {
        st.auto_propagate = true;
        Ok((st, p))
    } else if text_eq(name, "propagate") {
        let n = t.len();
        if p < n && punct_at(t, p, '=') {
            st.propagate = Some(copy_toks(t, p + 1, n));
            Ok((st, n))
        } else {
            st.propagate = Some(Vec::new());
            proof {
                assert(toks_view(Seq::<Tok>::empty()) =~= Seq::<TokV>::empty());
            }
            Ok((st, p))
        }
    } else if level == MetaLevel::Container {
        Err(MetaError::UnknownAttribute)
    } else {
        Ok((st, p))
    }
}

/// Reads the argument tokens `t` of an attribute, starting from the flags
/// `st`; see [`meta_list`].
pub fn read_meta_list(t: &Vec<Tok>, level: MetaLevel, init: MetaFlags) -> (r: Result<
    MetaFlags,
    MetaError,
>)
    ensures
        flags_result_view(r) == meta_list(toks_view(t@), level, init@),
{
    let ghost v = toks_view(t@);
    let ghost st0 = init@;
    let n = t.len();
    let mut st = init;
    let mut p: usize = 0;
    loop
        invariant
            v == toks_view(t@),
            n == t@.len(),
            p <= n,
            st0 == init@,
            meta_list(v, level, st0) == meta_list_from(v, p as int, level, st@),
        decreases n - p,
    {
        if p >= n {
            return Ok(st);
        }
        proof {
            lemma_meta_path_advances(v, p as int);
        }
        let (name, p1) = match read_meta_path(t, p) {
            Ok(x) => x,
            Err(e) => {
                return Err(e);
            },
        };
        let (st2, p2) = match apply_property_exec(t, p1, &name, level, st) {
            Ok(x) => x,
            Err(e) => {
                return Err(e);
            },
        };
        st = st2;
        if p2 >= n {
            return Ok(st);
        }
        if !punct_at(t, p2, ',') {
            return Err(MetaError::ExpectedComma);
        }
        if p2 + 1 >= n {
            return Ok(st);
        }
        p = p2 + 1;
    }
}

/// Reads one `#[enum_event..]` attribute; see [`attr_meta`].
pub fn read_attr_meta(a: &AttrInput, level: MetaLevel, st: MetaFlags) -> (r: Result<
    MetaFlags,
    MetaError,
>)
    ensures
        flags_result_view(r) == attr_meta(a@, level, st@),
{
    match &a.args {
        AttrArgs::Word => Err(MetaError::ExpectedParens),
        AttrArgs::NameValue => Err(MetaError::ExpectedParensNotValue),
        AttrArgs::List(t) => read_meta_list(t, level, st),
    }
}

/// Whether the last identifier of `path` is `ident`.
pub fn path_ends_with_ident(path: &Vec<String>, ident: &str) -> (r: bool)
    ensures
        r == (path@.len() > 0 && path@.last()@ == ident@),
{
    let n = path.len();
    n > 0 && text_eq(&path[n - 1], ident)
}

/// Whether the attribute's path ends with `name`; see [`attr_named`].
pub fn attr_is_named(a: &AttrInput, name: &str) -> (r: bool)
    ensures
        r == attr_named(a@, name@),
{
    let r = path_ends_with_ident(&a.path, name);
    proof {
        if a.path@.len() > 0 {
            assert(a@.path.last() == a.path@.last()@);
        }
    }
    r
}

/// The properties that the `#[enum_event(..)]` attributes among the first
/// `n` of `attrs` set, read in order at `level`; other attributes are
/// skipped. The first attribute that cannot be read gives the error.
pub open spec fn settings_prefix(attrs: Seq<AttrV>, n: int, level: MetaLevel) -> Result<
    MetaFlagsV,
    MetaError,
>
    decreases n,
{
    if n <= 0 {
        Ok(no_flags())
    } else {
        match settings_prefix(attrs, n - 1, level) {
            Err(e) => Err(e),
            Ok(st) => if attr_named(attrs[n - 1], "enum_event"@) {
                attr_meta(attrs[n - 1], level, st)
            } else {
                Ok(st)
            },
        }
    }
}

/// Once reading fails, the error stays the outcome.
pub proof fn lemma_settings_error_stays(attrs: Seq<AttrV>, m: int, n: int, level: MetaLevel)
    requires
        0 <= m <= n,
        settings_prefix(attrs, m, level) is Err,
    ensures
        settings_prefix(attrs, n, level) == settings_prefix(attrs, m, level),
    decreases n - m,
{
    if n > m {
        lemma_settings_error_stays(attrs, m, n - 1, level);
    }
}

/// The properties that all the `#[enum_event(..)]` attributes of `attrs`
/// set at `level`.
pub open spec fn settings(attrs: Seq<AttrV>, level: MetaLevel) -> Result<MetaFlagsV, MetaError> {
    settings_prefix(attrs, attrs.len() as int, level)
}

/// Reads the `#[enum_event(..)]` attributes of `attrs` at `level`; see
/// [`settings`].
pub fn read_settings(attrs: &Vec<AttrInput>, level: MetaLevel) -> (r: Result<MetaFlags, MetaError>)
    ensures
        flags_result_view(r) == settings(attrs_view(attrs@), level),
{
    let ghost av = attrs_view(attrs@);
    let mut st = MetaFlags { propagate: None, auto_propagate: false, target: false };
    let mut i: usize = 0;
    while i < attrs.len()
        invariant
            i <= attrs@.len(),
            av == attrs_view(attrs@),
            settings_prefix(av, i as int, level) == Ok::<MetaFlagsV, MetaError>(st@),
        decreases attrs@.len() - i,
    {
        assert(av[i as int] == attrs@[i as int]@);
        if attr_is_named(&attrs[i], "enum_event") {
            match read_attr_meta(&attrs[i], level, st) {
                Ok(s2) => {
                    st = s2;
                },
                Err(e) => {
                    proof {
                        lemma_settings_error_stays(av, i + 1, av.len() as int, level);
                    }
                    return Err(e);
                },
            }
        }
        i += 1;
    }
    Ok(st)
}

/// The properties that the `#[enum_event(..)]` attributes of a variant set.
pub fn analyze_variant_attrs(attrs: &Vec<AttrInput>) -> (r: Result<MetaFlags, MetaError>)
    ensures
        flags_result_view(r) == settings(attrs_view(attrs@), MetaLevel::Variant),
{
    read_settings(attrs, MetaLevel::Variant)
}

/// What the attributes of a field say.
pub struct FieldAttrInfo {
    /// Positions of the attributes that are copied onto the generated field,
    /// in order.
    pub passthrough_attrs: Vec<usize>,
    /// The field is marked as the event target.
    pub is_event_target: bool,
}

/// The mathematical value of [`FieldAttrInfo`].
pub struct FieldAttrInfoV {
    pub passthrough_attrs: Seq<int>,
    pub is_event_target: bool,
}

impl View for FieldAttrInfo {
    type V = FieldAttrInfoV;

    open spec fn view(&self) -> FieldAttrInfoV {
        FieldAttrInfoV {
            passthrough_attrs: self.passthrough_attrs@.map_values(|i: usize| i as int),
            is_event_target: self.is_event_target,
        }
    }
}

/// What the first `n` of a field's attributes say: an `#[enum_event(..)]`
/// attribute is read at field level (its `target` marks the field) and is not
/// copied; `#[event_target]` marks the field and is not copied; every other
/// attribute is copied.
pub open spec fn field_info_prefix(attrs: Seq<AttrV>, n: int) -> Result<FieldAttrInfoV, MetaError>
    decreases n,
{
    if n <= 0 {
        Ok(FieldAttrInfoV { passthrough_attrs: seq![], is_event_target: false })
    } else {
        match field_info_prefix(attrs, n - 1) {
            Err(e) => Err(e),
            Ok(info) => {
                let a = attrs[n - 1];
                if attr_named(a, "enum_event"@) {
                    match attr_meta(
                        a,
                        MetaLevel::Field,
                        MetaFlagsV { target: info.is_event_target, ..no_flags() },
                    ) {
                        Err(e) => Err(e),
                        Ok(f) => Ok(FieldAttrInfoV { is_event_target: f.target, ..info }),
                    }
                } else if attr_named(a, "event_target"@) {
                    Ok(FieldAttrInfoV { is_event_target: true, ..info })
                } else {
                    Ok(
                        FieldAttrInfoV {
                            passthrough_attrs: info.passthrough_attrs.push(n - 1),
                            ..info
                        },
                    )
                }
            },
        }
    }
}

/// Once reading fails, the error stays the outcome.
pub proof fn lemma_field_error_stays(attrs: Seq<AttrV>, m: int, n: int)
    requires
        0 <= m <= n,
        field_info_prefix(attrs, m) is Err,
    ensures
        field_info_prefix(attrs, n) == field_info_prefix(attrs, m),
    decreases n - m,
{
    if n > m {
        lemma_field_error_stays(attrs, m, n - 1);
    }
}

/// What all of a field's attributes say; see [`field_info_prefix`].
pub open spec fn field_info(attrs: Seq<AttrV>) -> Result<FieldAttrInfoV, MetaError> {
    field_info_prefix(attrs, attrs.len() as int)
}

/// The value of the outcome of reading a field's attributes.
pub open spec fn field_result_view(r: Result<FieldAttrInfo, MetaError>) -> Result<
    FieldAttrInfoV,
    MetaError,
> {
    match r {
        Ok(f) => Ok(f@),
        Err(e) => Err(e),
    }
}

/// Reads a field's attributes; see [`field_info`].
pub fn analyze_field_attrs(attrs: &Vec<AttrInput>) -> (r: Result<FieldAttrInfo, MetaError>)
    ensures
        field_result_view(r) == field_info(attrs_view(attrs@)),
{
    let ghost av = attrs_view(attrs@);
    let mut info = FieldAttrInfo { passthrough_attrs: Vec::new(), is_event_target: false };
    proof {
        assert(info@.passthrough_attrs =~= Seq::<int>::empty());
    }
    let mut i: usize = 0;
    while i < attrs.len()
        invariant
            i <= attrs@.len(),
            av == attrs_view(attrs@),
            field_info_prefix(av, i as int) == Ok::<FieldAttrInfoV, MetaError>(info@),
        decreases attrs@.len() - i,
    {
        assert(av[i as int] == attrs@[i as int]@);
        if attr_is_named(&attrs[i], "enum_event") {
            let st = MetaFlags { propagate: None, auto_propagate: false, target: info.is_event_target };
            match read_attr_meta(&attrs[i], MetaLevel::Field, st) {
                Ok(f) => {
                    info.is_event_target = f.target;
                },
                Err(e) => {
                    proof {
                        lemma_field_error_stays(av, i + 1, av.len() as int);
                    }
                    return Err(e);
                },
            }
        } else if attr_is_named(&attrs[i], "event_target") {
            info.is_event_target = true;
        } else {
            let ghost before = info.passthrough_attrs@;
            info.passthrough_attrs.push(i);
            proof {
                assert(info@.passthrough_attrs =~= before.map_values(|j: usize| j as int).push(
                    i as int,
                ));
            }
        }
        i += 1;
    }
    Ok(info)
}

} // verus!
