//! The decision core of the `builder` attribute macro, which generates a
//! "builder" for a struct.
//!
//! Field attributes:
//! - `#[builder_skip]`: the field gets no builder field;
//! - `#[builder_pass(attr)]`: `#[attr]` is put on the builder field;
//! - `#[builder(option, ...)]`, of which the first one on a field counts, with
//!   the options:
//!   - `skip`: the field gets no builder field;
//!   - `skip_table`: the field is in the builder but not in the struct;
//!   - `skip_setter`: the builder field gets no setter;
//!   - `name = ident`: the builder field's name;
//!   - `ty = Type`: the builder field's type;
//!   - `init = expr`, or `def_expr = expr`: its initial value (by default
//!     `Default::default()`);
//!   - `pass = attr`: `#[attr]` is put on the builder field;
//!   other keys are ignored, and when a key is given twice the last counts.
//! Arguments of the macro itself: `name = Ident`, the builder's name, and
//! `pass = attr`, put on the builder struct; other keys are ignored.
//!
//! Here the tokens are already read: attributes, options and fields are plain
//! values, and the functions decide which of them end up where, or why the
//! macro fails; `crate::render` writes the generated code as text.

use vstd::prelude::*;

verus! {

/// The form of an attribute: `#[path]`, `#[path(..)]` or `#[path = ..]`.
#[derive(Clone, Copy, Debug, PartialEq, Eq, Structural)]
pub enum MetaShape {
    Path,
    List,
    NameValue,
}

/// One option: a bare key such as `skip`, or `key = value`.
#[derive(Clone, Debug)]
pub struct BuilderOption {
    /// The key, as written.
    pub key: String,
    /// Whether the option is `key = value`.
    pub has_value: bool,
    /// The value as written; empty when there is none.
    pub value: String,
}

/// An attribute of a field.
#[derive(Clone, Debug)]
pub struct Attr {
    /// The attribute's path, as written (`builder` for the macro's own).
    pub path: String,
    pub shape: MetaShape,
    /// For a list attribute: its contents read as comma-separated options,
    /// each value read as what its key asks for (an identifier for `name`, a
    /// type for `ty`, an expression for `init` and `def_expr`); `None` when
    /// they do not read so.
    pub options: Option<Vec<BuilderOption>>,
    /// The whole attribute as written, `#[..]`.
    pub text: String,
    /// For a list attribute, what is written inside its parentheses.
    pub inner: String,
}

/// A field of the struct.
#[derive(Clone, Debug)]
pub struct Field {
    /// Whether the field has a name (it is not a field of a tuple struct).
    pub named: bool,
    pub attrs: Vec<Attr>,
    /// The field's visibility as written (empty when private).
    pub vis: String,
    /// The field's name (empty when it has none).
    pub name: String,
    /// The field's type as written.
    pub ty: String,
}

/// The item that the macro is applied to.
#[derive(Clone, Debug)]
pub struct Item {
    /// Whether the item is a struct.
    pub is_struct: bool,
    pub fields: Vec<Field>,
    /// The item as written up to its fields: its attributes (but the macro's
    /// own), visibility, `struct`, name, generics and `where` clause.
    pub head: String,
    /// The item's name.
    pub name: String,
}

/// An option of a field: the index of its attribute among the field's
/// attributes, and its index among that attribute's options.
#[derive(Clone, Copy, Debug, PartialEq, Eq, Structural)]
pub struct OptionRef {
    pub attr: usize,
    pub option: usize,
}

/// What the options of a field set.
#[derive(Clone, Copy, Debug, PartialEq, Eq, Structural)]
pub struct FieldFlags {
    pub skip: bool,
    pub skip_table: bool,
    pub skip_setter: bool,
    /// The `name` option that counts: the last one.
    pub name: Option<OptionRef>,
    /// The `ty` option that counts: the last one.
    pub ty: Option<OptionRef>,
    /// The `init` or `def_expr` option that counts: the last one.
    pub init: Option<OptionRef>,
}

/// How one field is configured.
#[derive(Clone, Debug)]
pub struct FieldConfig {
    pub flags: FieldFlags,
    /// The indices of the field's `#[builder_pass(..)]` attributes, in order.
    pub pass_attrs: Vec<usize>,
    /// The `pass` options of the field's `#[builder(..)]` attribute, in order.
    pub pass: Vec<OptionRef>,
}

/// Why a field is refused.
#[derive(Clone, Copy, Debug, PartialEq, Eq, Structural)]
pub enum FieldError {
    /// The field has no name.
    Unnamed,
    /// The contents of the field's `#[builder(..)]` attribute, at this
    /// index, do not read as options.
    BadOptions { attr: usize },
    /// This option is a flag given a value, or a key given none.
    BadValue(OptionRef),
}

/// What the macro generates, in terms of the input's parts.
#[derive(Clone, Debug)]
pub struct BuilderPlan {
    /// The index of the argument that names the builder; `None` keeps the
    /// struct's own name.
    pub name: Option<usize>,
    /// The indices of the `pass` arguments, in order.
    pub pass: Vec<usize>,
    /// The configuration of each field.
    pub fields: Vec<FieldConfig>,
    /// For each field, which of its attributes stay on the emitted struct.
    pub kept: Vec<Vec<bool>>,
}

/// Why the macro fails.
#[derive(Clone, Copy, Debug, PartialEq, Eq, Structural)]
pub enum BuildError {
    /// The item is not a struct.
    NotStruct,
    /// The macro's arguments do not read as options.
    BadArgs,
    /// The `name` or `pass` argument at this index has no value.
    BadArg { option: usize },
    /// The field at index `field` is refused.
    Field { field: usize, error: FieldError },
}

/// Whether `a` has the given form and its path is `name`.
pub open spec fn attr_is(a: Attr, shape: MetaShape, name: Seq<char>) -> bool {
    a.shape == shape && a.path@ == name
}

/// `#[builder_skip]`.
pub open spec fn is_skip_attr(a: Attr) -> bool {
    attr_is(a, MetaShape::Path, "builder_skip"@)
}

/// `#[builder(..)]`.
pub open spec fn is_options_attr(a: Attr) -> bool {
    attr_is(a, MetaShape::List, "builder"@)
}

/// `#[builder_pass(..)]`.
pub open spec fn is_pass_attr(a: Attr) -> bool {
    attr_is(a, MetaShape::List, "builder_pass"@)
}

/// Whether `a` stays on the struct as the macro emits it: the macro's own
/// attributes are removed.
pub open spec fn kept_on_struct(a: Attr) -> bool {
    !is_skip_attr(a) && !is_options_attr(a) && !is_pass_attr(a)
}

/// Whether one of `attrs` is `#[builder_skip]`.
pub open spec fn has_skip(attrs: Seq<Attr>) -> bool {
    exists|i: int| 0 <= i < attrs.len() && is_skip_attr(#[trigger] attrs[i])
}

/// Whether `attrs[i]` is the first `#[builder(..)]` attribute.
pub open spec fn is_first_options_attr(attrs: Seq<Attr>, i: int) -> bool {
    &&& 0 <= i < attrs.len()
    &&& is_options_attr(attrs[i])
    &&& forall|j: int| 0 <= j < i ==> !is_options_attr(#[trigger] attrs[j])
}

/// The index of the first `#[builder(..)]` attribute, if any.
pub open spec fn first_options_attr(attrs: Seq<Attr>) -> Option<int> {
    if exists|i: int| is_first_options_attr(attrs, i) {
        Some(choose|i: int| is_first_options_attr(attrs, i))
    } else {
        None
    }
}

/// The indices of the `#[builder_pass(..)]` attributes, in order.
pub open spec fn pass_attr_indices(attrs: Seq<Attr>) -> Seq<usize>
    decreases attrs.len(),
{
    if attrs.len() == 0 {
        Seq::empty()
    } else {
        let p = pass_attr_indices(attrs.drop_last());
        if is_pass_attr(attrs.last()) {
            p.push((attrs.len() - 1) as usize)
        } else {
            p
        }
    }
}

/// Nothing set.
pub open spec fn no_flags() -> FieldFlags {
    FieldFlags { skip: false, skip_table: false, skip_setter: false, name: None, ty: None, init: None }
}

/// Whether `k` is a key that takes no value.
pub open spec fn is_flag_key(k: Seq<char>) -> bool {
    k == "skip"@ || k == "skip_table"@ || k == "skip_setter"@
}

/// Whether `k` is a key that takes a value.
pub open spec fn is_value_key(k: Seq<char>) -> bool {
    k == "name"@ || k == "ty"@ || k == "init"@ || k == "def_expr"@ || k == "pass"@
}

/// Whether `k` is a key of the builder field's initial value.
pub open spec fn is_init_key(k: Seq<char>) -> bool {
    k == "init"@ || k == "def_expr"@
}

/// The effect of option `o`, found at `at`, on the flags `f`: known keys set
/// what they name, other keys are ignored.
pub open spec fn apply_option(f: FieldFlags, at: OptionRef, o: BuilderOption) -> Result<FieldFlags, FieldError> {
    let k = o.key@;
    if is_flag_key(k) {
        if o.has_value {
            Err(FieldError::BadValue(at))
        } else if k == "skip"@ {
            Ok(FieldFlags { skip: true, ..f })
        } else if k == "skip_table"@ {
            Ok(FieldFlags { skip_table: true, ..f })
        } else {
            Ok(FieldFlags { skip_setter: true, ..f })
        }
    } else if is_value_key(k) {
        if !o.has_value {
            Err(FieldError::BadValue(at))
        } else if k == "name"@ {
            Ok(FieldFlags { name: Some(at), ..f })
        } else if k == "ty"@ {
            Ok(FieldFlags { ty: Some(at), ..f })
        } else if is_init_key(k) {
            Ok(FieldFlags { init: Some(at), ..f })
        } else {
            Ok(f)
        }
    } else {
        Ok(f)
    }
}

/// The options of the attribute at index `attr`, applied in order to `f`; the
/// first refused option ends it.
pub open spec fn apply_options(f: FieldFlags, attr: usize, opts: Seq<BuilderOption>) -> Result<FieldFlags, FieldError>
    decreases opts.len(),
{
    if opts.len() == 0 {
        Ok(f)
    } else {
        match apply_options(f, attr, opts.drop_last()) {
            Err(e) => Err(e),
            Ok(g) => apply_option(g, OptionRef { attr, option: (opts.len() - 1) as usize }, opts.last()),
        }
    }
}

/// The flags of field `f`, or why it is refused: a missing name comes first;
/// `#[builder_skip]` skips the field whatever else it has; otherwise the
/// options of its first `#[builder(..)]` attribute decide.
pub open spec fn field_flags(f: Field) -> Result<FieldFlags, FieldError> {
    if !f.named {
        Err(FieldError::Unnamed)
    } else if has_skip(f.attrs@) {
        Ok(FieldFlags { skip: true, ..no_flags() })
    } else {
        match first_options_attr(f.attrs@) {
            None => Ok(no_flags()),
            Some(i) => match f.attrs@[i].options {
                None => Err(FieldError::BadOptions { attr: i as usize }),
                Some(opts) => apply_options(no_flags(), i as usize, opts@),
            },
        }
    }
}

/// The `pass` options among `opts`, of the attribute at index `attr`, in order.
pub open spec fn pass_in(attr: usize, opts: Seq<BuilderOption>) -> Seq<OptionRef>
    decreases opts.len(),
{
    if opts.len() == 0 {
        Seq::empty()
    } else {
        let p = pass_in(attr, opts.drop_last());
        if opts.last().key@ == "pass"@ {
            p.push(OptionRef { attr, option: (opts.len() - 1) as usize })
        } else {
            p
        }
    }
}

/// The `pass` options of field `f`: those of its `#[builder(..)]` attribute
/// when its options count.
pub open spec fn field_pass(f: Field) -> Seq<OptionRef> {
    if f.named && !has_skip(f.attrs@) && first_options_attr(f.attrs@) is Some
        && f.attrs@[first_options_attr(f.attrs@)->0].options is Some {
        pass_in(
            first_options_attr(f.attrs@)->0 as usize,
            f.attrs@[first_options_attr(f.attrs@)->0].options->0@,
        )
    } else {
        Seq::empty()
    }
}

/// The effect of the macro's argument `o`, at index `j`, on the builder's
/// name `n`: `name` sets it, `pass` leaves it, other keys are ignored.
pub open spec fn apply_arg(n: Option<usize>, j: usize, o: BuilderOption) -> Result<Option<usize>, BuildError> {
    if o.key@ == "name"@ || o.key@ == "pass"@ {
        if !o.has_value {
            Err(BuildError::BadArg { option: j })
        } else if o.key@ == "name"@ {
            Ok(Some(j))
        } else {
            Ok(n)
        }
    } else {
        Ok(n)
    }
}

/// The macro's arguments, applied in order: the last `name` counts, and the
/// first refused argument ends it.
pub open spec fn apply_args(opts: Seq<BuilderOption>) -> Result<Option<usize>, BuildError>
    decreases opts.len(),
{
    if opts.len() == 0 {
        Ok(None)
    } else {
        match apply_args(opts.drop_last()) {
            Err(e) => Err(e),
            Ok(n) => apply_arg(n, (opts.len() - 1) as usize, opts.last()),
        }
    }
}

/// The indices of the `pass` arguments, in order.
pub open spec fn args_pass(opts: Seq<BuilderOption>) -> Seq<usize>
    decreases opts.len(),
{
    if opts.len() == 0 {
        Seq::empty()
    } else {
        let p = args_pass(opts.drop_last());
        if opts.last().key@ == "pass"@ {
            p.push((opts.len() - 1) as usize)
        } else {
            p
        }
    }
}

/// Which attributes stay on the struct as the macro emits it.
pub open spec fn kept_flags(attrs: Seq<Attr>) -> Seq<bool> {
    attrs.map_values(|a: Attr| kept_on_struct(a))
}

impl FieldFlags {
    /// Whether the field has a field in the builder: unless `skip`.
    pub fn in_builder(&self) -> (r: bool)
        ensures
            r == !self.skip,
    {
        !self.skip
    }

    /// Whether the field stays in the emitted struct: unless `skip_table`.
    pub fn in_table(&self) -> (r: bool)
        ensures
            r == !self.skip_table,
    {
        !self.skip_table
    }

    /// Whether the field has a setter in the builder: unless `skip` or
    /// `skip_setter`.
    pub fn has_setter(&self) -> (r: bool)
        ensures
            r == (!self.skip && !self.skip_setter),
    {
        !self.skip && !self.skip_setter
    }
}

/// Whether `fields[i]` is the first refused field.
pub open spec fn is_first_field_error(fields: Seq<Field>, i: int) -> bool {
    &&& 0 <= i < fields.len()
    &&& field_flags(fields[i]) is Err
    &&& forall|j: int| 0 <= j < i ==> field_flags(#[trigger] fields[j]) is Ok
}

/// Whether `c` is the configuration of field `f`.
pub open spec fn configures(f: Field, c: FieldConfig) -> bool {
    &&& field_flags(f) == Ok::<FieldFlags, FieldError>(c.flags)
    &&& c.pass_attrs@ == pass_attr_indices(f.attrs@)
    &&& c.pass@ == field_pass(f)
}

/// Whether `p` is the plan for a struct with these fields and arguments, when
/// nothing is refused.
pub open spec fn plan_is(fields: Seq<Field>, args: Seq<BuilderOption>, p: BuilderPlan) -> bool {
    &&& apply_args(args) == Ok::<Option<usize>, BuildError>(p.name)
    &&& p.pass@ == args_pass(args)
    &&& p.fields@.len() == fields.len()
    &&& forall|i: int| 0 <= i < fields.len() ==> configures(fields[i], #[trigger] p.fields@[i])
    &&& p.kept@.len() == fields.len()
    &&& forall|i: int| 0 <= i < fields.len() ==> (#[trigger] p.kept@[i])@ == kept_flags(fields[i].attrs@)
}

/// Whether `text` is `name`.
fn text_is(text: &String, name: &str) -> (r: bool)
    ensures
        r == (text@ == name@),
{
    *text == String::from_str(name)
}

/// Whether `a` has the given form and its path is `name`.
fn attr_is_exec(a: &Attr, shape: MetaShape, name: &str) -> (r: bool)
    ensures
        r == attr_is(*a, shape, name@),
{
    a.shape == shape && text_is(&a.path, name)
}

/// Applies option `o`, found at `at`, to the flags `f`.
pub fn apply_option_exec(f: FieldFlags, at: OptionRef, o: &BuilderOption) -> (r: Result<FieldFlags, FieldError>)
    ensures
        r == apply_option(f, at, *o),
{
    let skip = text_is(&o.key, "skip");
    let skip_table = text_is(&o.key, "skip_table");
    let skip_setter = text_is(&o.key, "skip_setter");
    let name = text_is(&o.key, "name");
    let ty = text_is(&o.key, "ty");
    let init = text_is(&o.key, "init");
    let def_expr = text_is(&o.key, "def_expr");
    let pass = text_is(&o.key, "pass");
    if skip || skip_table || skip_setter {
        if o.has_value {
            Err(FieldError::BadValue(at))
        } else if skip {
            Ok(FieldFlags { skip: true, ..f })
        } else if skip_table {
            Ok(FieldFlags { skip_table: true, ..f })
        } else {
            Ok(FieldFlags { skip_setter: true, ..f })
        }
    } else if name || ty || init || def_expr || pass {
        if !o.has_value {
            Err(FieldError::BadValue(at))
        } else if name {
            Ok(FieldFlags { name: Some(at), ..f })
        } else if ty {
            Ok(FieldFlags { ty: Some(at), ..f })
        } else if init || def_expr {
            Ok(FieldFlags { init: Some(at), ..f })
        } else {
            Ok(f)
        }
    } else {
        Ok(f)
    }
}

/// Once the options up to `k` are refused, all of them are, for the same reason.
proof fn lemma_apply_options_stops(f: FieldFlags, attr: usize, opts: Seq<BuilderOption>, k: int)
    requires
        0 <= k <= opts.len(),
        apply_options(f, attr, opts.take(k)) is Err,
    ensures
        apply_options(f, attr, opts) == apply_options(f, attr, opts.take(k)),
    decreases opts.len() - k,
{
    if k < opts.len() {
        assert(opts.take(k + 1).drop_last() =~= opts.take(k));
        lemma_apply_options_stops(f, attr, opts, k + 1);
    } else {
        assert(opts.take(k) =~= opts);
    }
}

/// Once the arguments up to `k` are refused, all of them are, for the same reason.
proof fn lemma_apply_args_stops(opts: Seq<BuilderOption>, k: int)
    requires
        0 <= k <= opts.len(),
        apply_args(opts.take(k)) is Err,
    ensures
        apply_args(opts) == apply_args(opts.take(k)),
    decreases opts.len() - k,
{
    if k < opts.len() {
        assert(opts.take(k + 1).drop_last() =~= opts.take(k));
        lemma_apply_args_stops(opts, k + 1);
    } else {
        assert(opts.take(k) =~= opts);
    }
}

/// The indices of the `#[builder_pass(..)]` attributes among `attrs`, in order.
fn pass_attrs_of(attrs: &Vec<Attr>) -> (r: Vec<usize>)
    ensures
        r@ == pass_attr_indices(attrs@),
{
    let mut r: Vec<usize> = Vec::new();
    let mut i: usize = 0;
    while i < attrs.len()
        invariant
            i <= attrs@.len(),
            r@ == pass_attr_indices(attrs@.take(i as int)),
        decreases attrs@.len() - i,
    {
        proof {
            assert(attrs@.take(i + 1).drop_last() =~= attrs@.take(i as int));
            assert(attrs@.take(i + 1).last() == attrs@[i as int]);
        }
        if attr_is_exec(&attrs[i], MetaShape::List, "builder_pass") {
            r.push(i);
        }
        i += 1;
    }
    proof {
        assert(attrs@.take(attrs@.len() as int) =~= attrs@);
    }
    r
}

/// Applies the options of the attribute at index `attr` in order, and
/// collects its `pass` options.
fn apply_options_exec(attr: usize, opts: &Vec<BuilderOption>) -> (r: Result<(FieldFlags, Vec<OptionRef>), FieldError>)
    ensures
        match apply_options(no_flags(), attr, opts@) {
            Err(e) => r == Err::<(FieldFlags, Vec<OptionRef>), FieldError>(e),
            Ok(g) => r matches Ok(p) && p.0 == g && p.1@ == pass_in(attr, opts@),
        },
{
    let mut flags = FieldFlags { skip: false, skip_table: false, skip_setter: false, name: None, ty: None, init: None };
    let mut pass: Vec<OptionRef> = Vec::new();
    let m = opts.len();
    let mut j: usize = 0;
    while j < m
        invariant
            m == opts@.len(),
            j <= m,
            apply_options(no_flags(), attr, opts@.take(j as int)) == Ok::<FieldFlags, FieldError>(flags),
            pass@ == pass_in(attr, opts@.take(j as int)),
        decreases m - j,
    {
        proof {
            assert(opts@.take(j + 1).drop_last() =~= opts@.take(j as int));
            assert(opts@.take(j + 1).last() == opts@[j as int]);
        }
        let at = OptionRef { attr, option: j };
        match apply_option_exec(flags, at, &opts[j]) {
            Err(e) => {
                proof {
                    lemma_apply_options_stops(no_flags(), attr, opts@, j + 1);
                }
                return Err(e);
            },
            Ok(g) => {
                flags = g;
            },
        }
        if text_is(&opts[j].key, "pass") {
            pass.push(at);
        }
        proof {
            assert(pass@ =~= pass_in(attr, opts@.take(j + 1)));
        }
        j += 1;
    }
    proof {
        assert(opts@.take(m as int) =~= opts@);
    }
    Ok((flags, pass))
}

/// Configures field `f`, or says why it is refused: a missing name first,
/// then `#[builder_skip]`, which skips the field, then the options of its
/// first `#[builder(..)]` attribute, in order.
pub fn configure_field(f: &Field) -> (r: Result<FieldConfig, FieldError>)
    ensures
        match field_flags(*f) {
            Err(e) => r == Err::<FieldConfig, FieldError>(e),
            Ok(_) => r matches Ok(c) && configures(*f, c),
        },
{
    if !f.named {
        return Err(FieldError::Unnamed);
    }
    let ghost attrs = f.attrs@;
    let n = f.attrs.len();
    let pass_attrs = pass_attrs_of(&f.attrs);
    let mut i: usize = 0;
    while i < n
        invariant
            f.named,
            attrs == f.attrs@,
            pass_attrs@ == pass_attr_indices(attrs),
            n == attrs.len(),
            i <= n,
            forall|j: int| 0 <= j < i ==> !is_skip_attr(#[trigger] attrs[j]),
        decreases n - i,
    {
        if attr_is_exec(&f.attrs[i], MetaShape::Path, "builder_skip") {
            assert(is_skip_attr(attrs[i as int]));
            let flags = FieldFlags {
                skip: true,
                skip_table: false,
                skip_setter: false,
                name: None,
                ty: None,
                init: None,
            };
            return Ok(FieldConfig { flags, pass_attrs, pass: Vec::new() });
        }
        i += 1;
    }
    assert(!has_skip(attrs));
    let mut k: usize = 0;
    while k < n && !attr_is_exec(&f.attrs[k], MetaShape::List, "builder")
        invariant
            f.named,
            attrs == f.attrs@,
            pass_attrs@ == pass_attr_indices(attrs),
            n == attrs.len(),
            k <= n,
            forall|j: int| 0 <= j < k ==> !is_options_attr(#[trigger] attrs[j]),
        decreases n - k,
    {
        k += 1;
    }
    if k < n {
        assert(is_first_options_attr(attrs, k as int));
        assert forall|x: int| is_first_options_attr(attrs, x) implies x == k by {
            if x < k {
                assert(!is_options_attr(attrs[x]));
            } else if x > k {
                assert(!is_options_attr(attrs[k as int]));
            }
        }
        assert(first_options_attr(attrs) == Some(k as int));
        match &f.attrs[k].options {
            None => Err(FieldError::BadOptions { attr: k }),
            Some(opts) => match apply_options_exec(k, opts) {
                Err(e) => Err(e),
                Ok((flags, pass)) => Ok(FieldConfig { flags, pass_attrs, pass }),
            },
        }
    } else {
        assert forall|x: int| !is_first_options_attr(attrs, x) by {
            if 0 <= x < attrs.len() {
                assert(!is_options_attr(attrs[x]));
            }
        }
        assert(first_options_attr(attrs) == None::<int>);
        let flags = FieldFlags { skip: false, skip_table: false, skip_setter: false, name: None, ty: None, init: None };
        Ok(FieldConfig { flags, pass_attrs, pass: Vec::new() })
    }
}

/// Reads the macro's arguments: the argument that names the builder and the
/// `pass` arguments, or the first `name` or `pass` without a value.
pub fn configure_builder(args: &Vec<BuilderOption>) -> (r: Result<(Option<usize>, Vec<usize>), BuildError>)
    ensures
        match apply_args(args@) {
            Err(e) => r == Err::<(Option<usize>, Vec<usize>), BuildError>(e),
            Ok(n) => r matches Ok(p) && p.0 == n && p.1@ == args_pass(args@),
        },
{
    let mut name: Option<usize> = None;
    let mut pass: Vec<usize> = Vec::new();
    let mut j: usize = 0;
    while j < args.len()
        invariant
            j <= args@.len(),
            apply_args(args@.take(j as int)) == Ok::<Option<usize>, BuildError>(name),
            pass@ == args_pass(args@.take(j as int)),
        decreases args@.len() - j,
    {
        proof {
            assert(args@.take(j + 1).drop_last() =~= args@.take(j as int));
            assert(args@.take(j + 1).last() == args@[j as int]);
        }
        let o = &args[j];
        let is_name = text_is(&o.key, "name");
        let is_pass = text_is(&o.key, "pass");
        if is_name || is_pass {
            if !o.has_value {
                proof {
                    lemma_apply_args_stops(args@, j + 1);
                }
                return Err(BuildError::BadArg { option: j });
            }
            if is_name {
                name = Some(j);
            }
        }
        if is_pass {
            pass.push(j);
        }
        proof {
            assert(pass@ =~= args_pass(args@.take(j + 1)));
        }
        j += 1;
    }
    proof {
        assert(args@.take(args@.len() as int) =~= args@);
    }
    Ok((name, pass))
}

/// Whether attribute `a` stays on the struct as the macro emits it:
/// `#[builder_skip]`, `#[builder(..)]` and `#[builder_pass(..)]` are removed.
pub fn keeps_attr(a: &Attr) -> (r: bool)
    ensures
        r == kept_on_struct(*a),
{
    !attr_is_exec(a, MetaShape::Path, "builder_skip") && !attr_is_exec(a, MetaShape::List, "builder")
        && !attr_is_exec(a, MetaShape::List, "builder_pass")
}

/// For each of `attrs`, whether it stays on the struct as the macro emits it.
pub fn kept_attrs(attrs: &Vec<Attr>) -> (r: Vec<bool>)
    ensures
        r@ == kept_flags(attrs@),
{
    let mut r: Vec<bool> = Vec::new();
    let mut i: usize = 0;
    while i < attrs.len()
        invariant
            i <= attrs@.len(),
            r@ == kept_flags(attrs@.take(i as int)),
        decreases attrs@.len() - i,
    {
        r.push(keeps_attr(&attrs[i]));
        i += 1;
        proof {
            assert(kept_flags(attrs@.take(i as int)) =~= kept_flags(attrs@.take(i - 1)).push(
                kept_on_struct(attrs@[i - 1]),
            ));
        }
    }
    proof {
        assert(attrs@.take(attrs@.len() as int) =~= attrs@);
    }
    r
}

/// Decides what the macro generates for `item` with the arguments `args`
/// (`None` when they do not read as options), or why it fails: not a struct,
/// unreadable arguments, a refused argument, or the first refused field, in
/// that order.
pub fn plan_builder(item: &Item, args: &Option<Vec<BuilderOption>>) -> (r: Result<BuilderPlan, BuildError>)
    ensures
        !item.is_struct ==> r == Err::<BuilderPlan, BuildError>(BuildError::NotStruct),
        item.is_struct && args is None ==> r == Err::<BuilderPlan, BuildError>(BuildError::BadArgs),
        item.is_struct && args is Some ==> match apply_args(args->0@) {
            Err(e) => r == Err::<BuilderPlan, BuildError>(e),
            Ok(_) => if exists|i: int| is_first_field_error(item.fields@, i) {
                let i = choose|i: int| is_first_field_error(item.fields@, i);
                r == Err::<BuilderPlan, BuildError>(
                    BuildError::Field { field: i as usize, error: field_flags(item.fields@[i])->Err_0 },
                )
            } else {
                r matches Ok(p) && plan_is(item.fields@, args->0@, p)
            },
        },
{
    if !item.is_struct {
        return Err(BuildError::NotStruct);
    }
    let a = match args {
        None => {
            return Err(BuildError::BadArgs);
        },
        Some(a) => a,
    };
    assert(args->0@ == a@);
    let (name, pass) = match configure_builder(a) {
        Err(e) => {
            return Err(e);
        },
        Ok(p) => p,
    };
    let ghost fields = item.fields@;
    let n = item.fields.len();
    let mut configs: Vec<FieldConfig> = Vec::new();
    let mut kept: Vec<Vec<bool>> = Vec::new();
    let mut i: usize = 0;
    while i < n
        invariant
            n == fields.len(),
            fields == item.fields@,
            item.is_struct,
            args is Some,
            apply_args(args->0@) == Ok::<Option<usize>, BuildError>(name),
            i <= n,
            forall|j: int| 0 <= j < i ==> field_flags(#[trigger] fields[j]) is Ok,
            configs@.len() == i,
            forall|j: int| 0 <= j < i ==> configures(fields[j], #[trigger] configs@[j]),
            kept@.len() == i,
            forall|j: int| 0 <= j < i ==> (#[trigger] kept@[j])@ == kept_flags(fields[j].attrs@),
        decreases n - i,
    {
        let f = &item.fields[i];
        match configure_field(f) {
            Err(e) => {
                proof {
                    assert(is_first_field_error(fields, i as int));
                    assert forall|x: int| is_first_field_error(fields, x) implies x == i by {
                        if x < i {
                            assert(field_flags(fields[x]) is Ok);
                        } else if x > i {
                            assert(field_flags(fields[i as int]) is Ok);
                        }
                    }
                }
                return Err(BuildError::Field { field: i, error: e });
            },
            Ok(c) => {
                configs.push(c);
            },
        }
        kept.push(kept_attrs(&f.attrs));
        i += 1;
    }
    proof {
        assert forall|x: int| !is_first_field_error(fields, x) by {
            if 0 <= x < n {
                assert(field_flags(fields[x]) is Ok);
            }
        }
    }
    Ok(BuilderPlan { name, pass, fields: configs, kept })
}

/// The option keys are different words.
proof fn lemma_keys_distinct()
    ensures
        "skip"@ != "skip_table"@,
        "skip"@ != "skip_setter"@,
        "skip_table"@ != "skip_setter"@,
        !is_value_key("skip"@),
        !is_value_key("skip_table"@),
        !is_value_key("skip_setter"@),
        "name"@ != "ty"@,
        !is_init_key("name"@),
        !is_init_key("ty"@),
        !is_init_key("pass"@),
        "name"@ != "pass"@,
        "ty"@ != "pass"@,
{
    reveal_strlit("skip");
    reveal_strlit("skip_table");
    reveal_strlit("skip_setter");
    reveal_strlit("name");
    reveal_strlit("ty");
    reveal_strlit("init");
    reveal_strlit("def_expr");
    reveal_strlit("pass");
    assert("skip"@.len() == 4 && "skip_table"@.len() == 10 && "skip_setter"@.len() == 11);
    assert("name"@.len() == 4 && "ty"@.len() == 2 && "init"@.len() == 4 && "def_expr"@.len() == 8
        && "pass"@.len() == 4);
    assert("skip"@[0] == 's' && "name"@[0] == 'n' && "init"@[0] == 'i' && "pass"@[0] == 'p');
}

/// Whether one of `opts` has a key that satisfies `p`.
pub open spec fn has_key_where(opts: Seq<BuilderOption>, p: spec_fn(Seq<char>) -> bool) -> bool {
    exists|j: int| 0 <= j < opts.len() && p((#[trigger] opts[j]).key@)
}

/// Whether `opts[j]` is the last of `opts` whose key satisfies `p`.
pub open spec fn last_where(opts: Seq<BuilderOption>, p: spec_fn(Seq<char>) -> bool, j: int) -> bool {
    &&& 0 <= j < opts.len()
    &&& p(opts[j].key@)
    &&& forall|l: int| j < l < opts.len() ==> !p((#[trigger] opts[l]).key@)
}

/// Whether `c` names the last option of `opts`, of attribute `attr`, whose key
/// satisfies `p`, or is `before` when there is none.
pub open spec fn is_last_where(
    opts: Seq<BuilderOption>,
    p: spec_fn(Seq<char>) -> bool,
    attr: usize,
    before: Option<OptionRef>,
    c: Option<OptionRef>,
) -> bool {
    if has_key_where(opts, p) {
        c matches Some(r) && r.attr == attr && last_where(opts, p, r.option as int)
    } else {
        c == before
    }
}

/// The key `k` itself.
pub open spec fn key_is(k: Seq<char>) -> spec_fn(Seq<char>) -> bool {
    |x: Seq<char>| x == k
}

/// One more option: it is the last with a key that satisfies `p` if its key
/// does, and otherwise the last one stays.
proof fn lemma_last_step(
    opts: Seq<BuilderOption>,
    p: spec_fn(Seq<char>) -> bool,
    attr: usize,
    before: Option<OptionRef>,
    c: Option<OptionRef>,
)
    requires
        0 < opts.len() <= usize::MAX,
        is_last_where(opts.drop_last(), p, attr, before, c),
    ensures
        is_last_where(
            opts,
            p,
            attr,
            before,
            if p(opts.last().key@) {
                Some(OptionRef { attr, option: (opts.len() - 1) as usize })
            } else {
                c
            },
        ),
{
    let init = opts.drop_last();
    let last = opts.len() - 1;
    assert(opts[last] == opts.last());
    assert forall|j: int| 0 <= j < init.len() implies #[trigger] init[j] == opts[j] by {}
    if p(opts.last().key@) {
        assert(has_key_where(opts, p)) by {
            assert(p(opts[last].key@));
        }
    } else {
        if has_key_where(init, p) {
            let r = c->0;
            assert(init[r.option as int] == opts[r.option as int]);
            assert(has_key_where(opts, p)) by {
                assert(p(opts[r.option as int].key@));
            }
            assert forall|l: int| r.option < l < opts.len() implies !p((#[trigger] opts[l]).key@) by {
                if l < last {
                    assert(init[l] == opts[l]);
                }
            }
        } else {
            assert(!has_key_where(opts, p)) by {
                assert forall|j: int| 0 <= j < opts.len() implies !p((#[trigger] opts[j]).key@) by {
                    if j < last {
                        assert(init[j] == opts[j]);
                    }
                }
            }
        }
    }
}

/// When the options of a `#[builder(..)]` attribute are all accepted, a flag
/// is set when it was set before or one of them sets it, and the `name`, the
/// `ty` and the initial value (`init` or `def_expr`) that count are the last
/// ones given, or stay as they were when there is none.
pub proof fn lemma_options_effect(f: FieldFlags, attr: usize, opts: Seq<BuilderOption>)
    requires
        opts.len() <= usize::MAX,
        apply_options(f, attr, opts) is Ok,
    ensures
        ({
            let g = apply_options(f, attr, opts)->Ok_0;
            &&& g.skip == (f.skip || has_key_where(opts, key_is("skip"@)))
            &&& g.skip_table == (f.skip_table || has_key_where(opts, key_is("skip_table"@)))
            &&& g.skip_setter == (f.skip_setter || has_key_where(opts, key_is("skip_setter"@)))
            &&& is_last_where(opts, key_is("name"@), attr, f.name, g.name)
            &&& is_last_where(opts, key_is("ty"@), attr, f.ty, g.ty)
            &&& is_last_where(opts, |k: Seq<char>| is_init_key(k), attr, f.init, g.init)
        }),
    decreases opts.len(),
{
    lemma_keys_distinct();
    if opts.len() > 0 {
        let init = opts.drop_last();
        let last = opts.len() - 1;
        lemma_options_effect(f, attr, init);
        let g0 = apply_options(f, attr, init)->Ok_0;
        let g = apply_options(f, attr, opts)->Ok_0;
        let o = opts[last];
        assert(o == opts.last());
        assert forall|j: int| 0 <= j < init.len() implies #[trigger] init[j] == opts[j] by {}
        lemma_last_step(opts, key_is("name"@), attr, f.name, g0.name);
        lemma_last_step(opts, key_is("ty"@), attr, f.ty, g0.ty);
        lemma_last_step(opts, |k: Seq<char>| is_init_key(k), attr, f.init, g0.init);
        let ks = seq!["skip"@, "skip_table"@, "skip_setter"@];
        assert forall|t: int| 0 <= t < ks.len() implies has_key_where(opts, key_is(#[trigger] ks[t]))
            == (has_key_where(init, key_is(ks[t])) || o.key@ == ks[t]) by {
            let k = ks[t];
            if has_key_where(init, key_is(k)) {
                let j = choose|j: int| 0 <= j < init.len() && key_is(k)((#[trigger] init[j]).key@);
                assert(key_is(k)(opts[j].key@));
            }
            if has_key_where(opts, key_is(k)) && o.key@ != k {
                let j = choose|j: int| 0 <= j < opts.len() && key_is(k)((#[trigger] opts[j]).key@);
                assert(key_is(k)(init[j].key@));
            }
            if o.key@ == k {
                assert(key_is(k)(opts[last].key@));
            }
        }
        assert(ks[0] == "skip"@ && ks[1] == "skip_table"@ && ks[2] == "skip_setter"@);
        if o.key@ == "name"@ {
            assert(g == FieldFlags { name: Some(OptionRef { attr, option: last as usize }), ..g0 });
        } else if o.key@ == "ty"@ {
            assert(g == FieldFlags { ty: Some(OptionRef { attr, option: last as usize }), ..g0 });
        } else if is_init_key(o.key@) {
            assert(g == FieldFlags { init: Some(OptionRef { attr, option: last as usize }), ..g0 });
        } else if o.key@ == "skip"@ {
            assert(g == FieldFlags { skip: true, ..g0 });
        } else if o.key@ == "skip_table"@ {
            assert(g == FieldFlags { skip_table: true, ..g0 });
        } else if o.key@ == "skip_setter"@ {
            assert(g == FieldFlags { skip_setter: true, ..g0 });
        } else {
            assert(g == g0);
        }
    }
}

/// Whether option `o` is accepted: a known flag has no value and a known key
/// that takes a value has one; other keys are always accepted (and ignored).
pub open spec fn accepted(o: BuilderOption) -> bool {
    !(is_flag_key(o.key@) && o.has_value) && !(is_value_key(o.key@) && !o.has_value)
}

/// The options of an attribute are refused exactly when one of them is not
/// accepted, and then for the first such one.
pub proof fn lemma_options_refusal(f: FieldFlags, attr: usize, opts: Seq<BuilderOption>)
    requires
        opts.len() <= usize::MAX,
    ensures
        apply_options(f, attr, opts) is Ok <==> forall|j: int| 0 <= j < opts.len() ==> accepted(
            #[trigger] opts[j],
        ),
        apply_options(f, attr, opts) matches Err(e) ==> exists|j: int|
            {
                &&& 0 <= j < opts.len()
                &&& !accepted(#[trigger] opts[j])
                &&& forall|l: int| 0 <= l < j ==> accepted(#[trigger] opts[l])
                &&& e == FieldError::BadValue(OptionRef { attr, option: j as usize })
            },
    decreases opts.len(),
{
    lemma_keys_distinct();
    if opts.len() > 0 {
        let init = opts.drop_last();
        let last = opts.len() - 1;
        lemma_options_refusal(f, attr, init);
        assert forall|j: int| 0 <= j < init.len() implies #[trigger] init[j] == opts[j] by {}
        assert(opts[last] == opts.last());
        match apply_options(f, attr, init) {
            Err(e) => {
                let j = choose|j: int|
                    {
                        &&& 0 <= j < init.len()
                        &&& !accepted(#[trigger] init[j])
                        &&& forall|l: int| 0 <= l < j ==> accepted(#[trigger] init[l])
                        &&& e == FieldError::BadValue(OptionRef { attr, option: j as usize })
                    };
                assert(!accepted(opts[j]));
                assert forall|l: int| 0 <= l < j implies accepted(#[trigger] opts[l]) by {
                    assert(init[l] == opts[l]);
                }
            },
            Ok(g) => {
                assert forall|l: int| 0 <= l < last implies accepted(#[trigger] opts[l]) by {
                    assert(init[l] == opts[l]);
                }
                if accepted(opts[last]) {
                    assert(apply_options(f, attr, opts) is Ok);
                    assert forall|l: int| 0 <= l < opts.len() implies accepted(#[trigger] opts[l]) by {
                        if l < last {
                            assert(init[l] == opts[l]);
                        }
                    }
                } else {
                    assert(apply_options(f, attr, opts) is Err);
                }
            },
        }
    }
}

/// The macro's arguments are accepted exactly when each `name` and `pass` has
/// a value, and then the builder is named by the last `name`.
pub proof fn lemma_args_effect(opts: Seq<BuilderOption>)
    requires
        opts.len() <= usize::MAX,
    ensures
        apply_args(opts) is Ok <==> forall|j: int|
            0 <= j < opts.len() ==> (((#[trigger] opts[j]).key@ == "name"@ || opts[j].key@ == "pass"@)
                ==> opts[j].has_value),
        apply_args(opts) matches Ok(n) ==> is_last_where(opts, key_is("name"@), 0, None, match n {
            Some(j) => Some(OptionRef { attr: 0, option: j }),
            None => None,
        }),
    decreases opts.len(),
{
    lemma_keys_distinct();
    if opts.len() > 0 {
        let init = opts.drop_last();
        let last = opts.len() - 1;
        lemma_args_effect(init);
        assert forall|j: int| 0 <= j < init.len() implies #[trigger] init[j] == opts[j] by {}
        assert(opts[last] == opts.last());
        match apply_args(init) {
            Err(e) => {
                let j = choose|j: int|
                    0 <= j < init.len() && !((((#[trigger] init[j]).key@ == "name"@ || init[j].key@
                        == "pass"@) ==> init[j].has_value));
                assert(opts[j] == init[j]);
            },
            Ok(n) => {
                assert forall|l: int|
                    0 <= l < last && ((#[trigger] opts[l]).key@ == "name"@ || opts[l].key@ == "pass"@) implies opts[l].has_value by {
                    assert(init[l] == opts[l]);
                }
                let c = match n {
                    Some(j) => Some(OptionRef { attr: 0, option: j }),
                    None => None,
                };
                lemma_last_step(opts, key_is("name"@), 0, None, c);
            },
        }
    }
}

/// As the macro emits the struct, exactly its own attributes
/// (`#[builder_skip]`, `#[builder(..)]`, `#[builder_pass(..)]`) are removed
/// from each field.
pub proof fn lemma_own_attrs_removed(attrs: Seq<Attr>)
    ensures
        kept_flags(attrs).len() == attrs.len(),
        forall|i: int|
            0 <= i < attrs.len() ==> (#[trigger] kept_flags(attrs)[i] <==> !(is_skip_attr(attrs[i])
                || is_options_attr(attrs[i]) || is_pass_attr(attrs[i]))),
{
}

/// The indices of the configurations whose flags satisfy `pick`, in order.
pub open spec fn selected(configs: Seq<FieldConfig>, pick: spec_fn(FieldFlags) -> bool) -> Seq<usize>
    decreases configs.len(),
{
    if configs.len() == 0 {
        Seq::empty()
    } else {
        let p = selected(configs.drop_last(), pick);
        if pick(configs.last().flags) {
            p.push((configs.len() - 1) as usize)
        } else {
            p
        }
    }
}

/// Fields that stay in the emitted struct.
pub open spec fn table_pick() -> spec_fn(FieldFlags) -> bool {
    |f: FieldFlags| !f.skip_table
}

/// Fields that get a builder field.
pub open spec fn builder_pick() -> spec_fn(FieldFlags) -> bool {
    |f: FieldFlags| !f.skip
}

/// Fields that get a setter.
pub open spec fn setter_pick() -> spec_fn(FieldFlags) -> bool {
    |f: FieldFlags| !f.skip && !f.skip_setter
}

/// Where the fields go in the generated code, by index, in the struct's order.
#[derive(Clone, Debug)]
pub struct OutputPlan {
    /// The fields kept in the emitted struct.
    pub table_fields: Vec<usize>,
    /// The fields that get a field in the builder and an initializer in its
    /// `new` (`crate::render` writes them).
    pub builder_fields: Vec<usize>,
    /// The fields whose builder field gets a setter.
    pub setters: Vec<usize>,
}

/// Lays out the generated code for fields with these configurations: which
/// stay in the struct, which get a builder field, which get a setter.
pub fn output_plan(configs: &Vec<FieldConfig>) -> (r: OutputPlan)
    ensures
        r.table_fields@ == selected(configs@, table_pick()),
        r.builder_fields@ == selected(configs@, builder_pick()),
        r.setters@ == selected(configs@, setter_pick()),
{
    let mut table_fields: Vec<usize> = Vec::new();
    let mut builder_fields: Vec<usize> = Vec::new();
    let mut setters: Vec<usize> = Vec::new();
    let mut i: usize = 0;
    while i < configs.len()
        invariant
            i <= configs@.len(),
            table_fields@ == selected(configs@.take(i as int), table_pick()),
            builder_fields@ == selected(configs@.take(i as int), builder_pick()),
            setters@ == selected(configs@.take(i as int), setter_pick()),
        decreases configs@.len() - i,
    {
        proof {
            assert(configs@.take(i + 1).drop_last() =~= configs@.take(i as int));
            assert(configs@.take(i + 1).last() == configs@[i as int]);
        }
        let f = &configs[i].flags;
        if f.in_table() {
            table_fields.push(i);
        }
        if f.in_builder() {
            builder_fields.push(i);
        }
        if f.has_setter() {
            setters.push(i);
        }
        i += 1;
    }
    proof {
        assert(configs@.take(configs@.len() as int) =~= configs@);
    }
    OutputPlan { table_fields, builder_fields, setters }
}

/// The fields picked for a part of the generated code are listed once each, in
/// the struct's order, and they are exactly those whose flags say so.
pub proof fn lemma_selected(configs: Seq<FieldConfig>, pick: spec_fn(FieldFlags) -> bool)
    requires
        configs.len() <= usize::MAX,
    ensures
        forall|k: int|
            0 <= k < selected(configs, pick).len() ==> {
                &&& (#[trigger] selected(configs, pick)[k]) < configs.len()
                &&& pick(configs[selected(configs, pick)[k] as int].flags)
            },
        forall|k: int, l: int|
            0 <= k < l < selected(configs, pick).len() ==> #[trigger] selected(configs, pick)[k]
                < #[trigger] selected(configs, pick)[l],
        forall|i: int|
            0 <= i < configs.len() && pick(#[trigger] configs[i].flags) ==> selected(
                configs,
                pick,
            ).contains(i as usize),
    decreases configs.len(),
{
    if configs.len() > 0 {
        let init = configs.drop_last();
        lemma_selected(init, pick);
        assert forall|k: int| 0 <= k < init.len() implies #[trigger] init[k] == configs[k] by {}
        let b = selected(configs, pick);
        let bi = selected(init, pick);
        assert forall|i: int| 0 <= i < configs.len() && pick(#[trigger] configs[i].flags) implies b.contains(
            i as usize,
        ) by {
            if i < init.len() {
                assert(pick(init[i].flags));
                let k = choose|k: int| 0 <= k < bi.len() && bi[k] == i as usize;
                assert(b[k] == i as usize);
            } else {
                assert(b[b.len() - 1] == i as usize);
            }
        }
    }
}

/// Every `#[builder_pass(..)]` attribute of a field is passed on, each once,
/// in the order written, and nothing else is: `pass_attr_indices` lists exactly
/// the indices of those attributes, increasing.
pub proof fn lemma_pass_attrs_all(attrs: Seq<Attr>)
    requires
        attrs.len() <= usize::MAX,
    ensures
        forall|k: int|
            0 <= k < pass_attr_indices(attrs).len() ==> {
                &&& (#[trigger] pass_attr_indices(attrs)[k]) < attrs.len()
                &&& is_pass_attr(attrs[pass_attr_indices(attrs)[k] as int])
            },
        forall|k: int, l: int|
            0 <= k < l < pass_attr_indices(attrs).len() ==> #[trigger] pass_attr_indices(attrs)[k]
                < #[trigger] pass_attr_indices(attrs)[l],
        forall|i: int|
            0 <= i < attrs.len() && is_pass_attr(#[trigger] attrs[i]) ==> pass_attr_indices(
                attrs,
            ).contains(i as usize),
    decreases attrs.len(),
{
    if attrs.len() > 0 {
        let init = attrs.drop_last();
        lemma_pass_attrs_all(init);
        assert forall|k: int| 0 <= k < init.len() implies #[trigger] init[k] == attrs[k] by {}
        let b = pass_attr_indices(attrs);
        let bi = pass_attr_indices(init);
        assert forall|i: int| 0 <= i < attrs.len() && is_pass_attr(#[trigger] attrs[i]) implies b.contains(
            i as usize,
        ) by {
            if i < init.len() {
                assert(is_pass_attr(init[i]));
                let k = choose|k: int| 0 <= k < bi.len() && bi[k] == i as usize;
                assert(b[k] == i as usize);
            } else {
                assert(b[b.len() - 1] == i as usize);
            }
        }
    }
}

/// Every `pass` argument of the macro is put on the builder struct, each once,
/// in the order written, whatever `name` arguments there are: `args_pass`
/// lists exactly the indices of the arguments with key `pass`, increasing.
pub proof fn lemma_args_pass_all(opts: Seq<BuilderOption>)
    requires
        opts.len() <= usize::MAX,
    ensures
        forall|k: int|
            0 <= k < args_pass(opts).len() ==> {
                &&& (#[trigger] args_pass(opts)[k]) < opts.len()
                &&& opts[args_pass(opts)[k] as int].key@ == "pass"@
            },
        forall|k: int, l: int|
            0 <= k < l < args_pass(opts).len() ==> #[trigger] args_pass(opts)[k]
                < #[trigger] args_pass(opts)[l],
        forall|j: int|
            0 <= j < opts.len() && (#[trigger] opts[j]).key@ == "pass"@ ==> args_pass(opts).contains(
                j as usize,
            ),
    decreases opts.len(),
{
    if opts.len() > 0 {
        let init = opts.drop_last();
        lemma_args_pass_all(init);
        assert forall|k: int| 0 <= k < init.len() implies #[trigger] init[k] == opts[k] by {}
        let b = args_pass(opts);
        let bi = args_pass(init);
        assert forall|j: int| 0 <= j < opts.len() && (#[trigger] opts[j]).key@ == "pass"@ implies b.contains(
            j as usize,
        ) by {
            if j < init.len() {
                assert(init[j].key@ == "pass"@);
                let k = choose|k: int| 0 <= k < bi.len() && bi[k] == j as usize;
                assert(b[k] == j as usize);
            } else {
                assert(b[b.len() - 1] == j as usize);
            }
        }
    }
}

/// A named field with `#[builder_skip]` is left out of the builder only: it
/// gets no builder field and no setter, and it stays in the emitted struct.
pub proof fn lemma_builder_skip_only_skips_builder(f: Field)
    requires
        f.named,
        has_skip(f.attrs@),
    ensures
        field_flags(f) matches Ok(g) && g.skip && !g.skip_table,
{
}

/// In a plan, a field with `#[builder_skip]` stays among the struct's fields
/// and is not among the builder's fields or setters.
pub proof fn lemma_skipped_field_stays_in_struct(
    fields: Seq<Field>,
    args: Seq<BuilderOption>,
    p: BuilderPlan,
    i: int,
)
    requires
        plan_is(fields, args, p),
        0 <= i < fields.len(),
        fields[i].named,
        has_skip(fields[i].attrs@),
    ensures
        selected(p.fields@, table_pick()).contains(i as usize),
        !selected(p.fields@, builder_pick()).contains(i as usize),
        !selected(p.fields@, setter_pick()).contains(i as usize),
{
    assert(configures(fields[i], p.fields@[i]));
    let c = p.fields@[i];
    assert(c.flags.skip && !c.flags.skip_table);
    assert(p.fields@.len() <= usize::MAX) by {
        assert(p.fields@.len() == p.fields.len());
    }
    lemma_selected(p.fields@, table_pick());
    lemma_selected(p.fields@, builder_pick());
    lemma_selected(p.fields@, setter_pick());
    assert(table_pick()(p.fields@[i].flags));
    let b = selected(p.fields@, builder_pick());
    if b.contains(i as usize) {
        let k = choose|k: int| 0 <= k < b.len() && b[k] == i as usize;
        assert(builder_pick()(p.fields@[b[k] as int].flags));
    }
    let st = selected(p.fields@, setter_pick());
    if st.contains(i as usize) {
        let k = choose|k: int| 0 <= k < st.len() && st[k] == i as usize;
        assert(setter_pick()(p.fields@[st[k] as int].flags));
    }
}

} // verus!
