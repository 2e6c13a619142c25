//! The code that the `builder` macro generates, written as text: the struct
//! without the macro's attributes and without its `skip_table` fields, then
//! the builder struct, with a public field per field that is not skipped, a
//! `new` that sets each to its initial value, and the setters.

use super::builder::{
    output_plan, plan_builder, selected, builder_pick, setter_pick, table_pick, Attr, BuildError,
    BuilderOption, BuilderPlan, Field, FieldConfig, Item, OptionRef, kept_on_struct, keeps_attr,
    plan_is, is_first_field_error, field_flags, apply_args,
};
use vstd::prelude::*;

verus! {

/// The texts `g(x)` of the elements of `xs`, one after the other.
pub open spec fn concat_over<T>(xs: Seq<T>, g: spec_fn(T) -> Seq<char>) -> Seq<char>
    decreases xs.len(),
{
    if xs.len() == 0 {
        Seq::empty()
    } else {
        concat_over(xs.drop_last(), g) + g(xs.last())
    }
}

/// One more element adds its text at the end.
proof fn lemma_concat_step<T>(xs: Seq<T>, g: spec_fn(T) -> Seq<char>, k: int)
    requires
        0 <= k < xs.len(),
    ensures
        concat_over(xs.take(k + 1), g) == concat_over(xs.take(k), g) + g(xs[k]),
{
    assert(xs.take(k + 1).drop_last() =~= xs.take(k));
    assert(xs.take(k + 1).last() == xs[k]);
}

/// The value of the option at `r` of field `f`, as written; empty when there
/// is no such option.
pub open spec fn option_value(f: Field, r: OptionRef) -> Seq<char> {
    if r.attr < f.attrs@.len() && f.attrs@[r.attr as int].options is Some && r.option
        < f.attrs@[r.attr as int].options->0@.len() {
        f.attrs@[r.attr as int].options->0@[r.option as int].value@
    } else {
        Seq::empty()
    }
}

/// What is written inside the parentheses of attribute `i` of field `f`;
/// empty when there is no such attribute.
pub open spec fn attr_inner(f: Field, i: usize) -> Seq<char> {
    if i < f.attrs@.len() {
        f.attrs@[i as int].inner@
    } else {
        Seq::empty()
    }
}

/// An attribute of the emitted struct's field, when it is kept.
pub open spec fn kept_attr_text(a: Attr) -> Seq<char> {
    if kept_on_struct(a) {
        a.text@ + " "@
    } else {
        Seq::empty()
    }
}

/// `kept_attr_text` as a function.
pub open spec fn kept_attr_texts() -> spec_fn(Attr) -> Seq<char> {
    |a: Attr| kept_attr_text(a)
}

/// The attribute made of what is inside attribute `i` of field `f`.
pub open spec fn passed_attr_texts(f: Field) -> spec_fn(usize) -> Seq<char> {
    |i: usize| "#["@ + attr_inner(f, i) + "] "@
}

/// The attribute made of the value of the option at `r` of field `f`.
pub open spec fn passed_option_texts(f: Field) -> spec_fn(OptionRef) -> Seq<char> {
    |r: OptionRef| "#["@ + option_value(f, r) + "] "@
}

/// A field of the emitted struct: its kept attributes, visibility, name and type.
pub open spec fn table_field_text(f: Field) -> Seq<char> {
    concat_over(f.attrs@, kept_attr_texts()) + f.vis@ + " "@ + f.name@ + ": "@ + f.ty@
        + ", "@
}

/// The name of the builder field of `f`: its `name` option, or its own name.
pub open spec fn builder_field_name(f: Field, c: FieldConfig) -> Seq<char> {
    match c.flags.name {
        Some(r) => option_value(f, r),
        None => f.name@,
    }
}

/// The type of the builder field of `f`: its `ty` option, or its own type.
pub open spec fn builder_field_ty(f: Field, c: FieldConfig) -> Seq<char> {
    match c.flags.ty {
        Some(r) => option_value(f, r),
        None => f.ty@,
    }
}

/// The initial value of the builder field of `f`: its `init` or `def_expr`
/// option, or `Default::default()`.
pub open spec fn builder_field_init(f: Field, c: FieldConfig) -> Seq<char> {
    match c.flags.init {
        Some(r) => option_value(f, r),
        None => "Default::default()"@,
    }
}

/// The attributes put on the builder field of `f`: those of its
/// `#[builder_pass(..)]` attributes, then those of its `pass` options.
pub open spec fn builder_field_attrs(f: Field, c: FieldConfig) -> Seq<char> {
    concat_over(c.pass_attrs@, passed_attr_texts(f)) + concat_over(c.pass@, passed_option_texts(f))
}

/// A field of the builder: public, named and typed as above.
pub open spec fn builder_field_text(f: Field, c: FieldConfig) -> Seq<char> {
    builder_field_attrs(f, c) + "pub "@ + builder_field_name(f, c) + ": "@ + builder_field_ty(f, c)
        + ", "@
}

/// The initializer of a builder field in `new`.
pub open spec fn init_text(f: Field, c: FieldConfig) -> Seq<char> {
    builder_field_name(f, c) + ": "@ + builder_field_init(f, c) + ", "@
}

/// The setter of a builder field.
pub open spec fn setter_text(f: Field, c: FieldConfig) -> Seq<char> {
    let n = builder_field_name(f, c);
    "pub fn "@ + n + "(mut self, "@ + n + ": "@ + builder_field_ty(f, c) + ") -> Self { self."@ + n
        + " = "@ + n + "; return self; } "@
}

/// Whether field `i` and its configuration exist.
pub open spec fn has_field(item: Item, plan: BuilderPlan, i: usize) -> bool {
    i < item.fields@.len() && i < plan.fields@.len()
}

/// The emitted struct's field `i`.
pub open spec fn table_texts(item: Item) -> spec_fn(usize) -> Seq<char> {
    |i: usize|
        if i < item.fields@.len() {
            table_field_text(item.fields@[i as int])
        } else {
            Seq::empty()
        }
}

/// The builder's field for field `i`.
pub open spec fn builder_field_texts(item: Item, plan: BuilderPlan) -> spec_fn(usize) -> Seq<char> {
    |i: usize|
        if has_field(item, plan, i) {
            builder_field_text(item.fields@[i as int], plan.fields@[i as int])
        } else {
            Seq::empty()
        }
}

/// The initializer in `new` for field `i`.
pub open spec fn init_texts(item: Item, plan: BuilderPlan) -> spec_fn(usize) -> Seq<char> {
    |i: usize|
        if has_field(item, plan, i) {
            init_text(item.fields@[i as int], plan.fields@[i as int])
        } else {
            Seq::empty()
        }
}

/// The setter for field `i`.
pub open spec fn setter_texts(item: Item, plan: BuilderPlan) -> spec_fn(usize) -> Seq<char> {
    |i: usize|
        if has_field(item, plan, i) {
            setter_text(item.fields@[i as int], plan.fields@[i as int])
        } else {
            Seq::empty()
        }
}

/// The value of argument `j`, as written; empty when there is none.
pub open spec fn arg_value(args: Seq<BuilderOption>, j: usize) -> Seq<char> {
    if j < args.len() {
        args[j as int].value@
    } else {
        Seq::empty()
    }
}

/// The builder's name: the `name` argument, or the struct's own name.
pub open spec fn builder_name_text(item: Item, args: Seq<BuilderOption>, plan: BuilderPlan) -> Seq<char> {
    match plan.name {
        Some(j) => arg_value(args, j),
        None => item.name@,
    }
}

/// The attribute made of the value of argument `j`.
pub open spec fn arg_attr_texts(args: Seq<BuilderOption>) -> spec_fn(usize) -> Seq<char> {
    |j: usize| "#["@ + arg_value(args, j) + "] "@
}

/// The emitted struct: its head, then its kept fields.
pub open spec fn table_text(item: Item, plan: BuilderPlan) -> Seq<char> {
    item.head@ + " { "@ + concat_over(selected(plan.fields@, table_pick()), table_texts(item)) + "}\n"@
}

/// The builder struct: the `pass` arguments as attributes, then its fields.
pub open spec fn builder_struct_text(item: Item, args: Seq<BuilderOption>, plan: BuilderPlan) -> Seq<char> {
    concat_over(plan.pass@, arg_attr_texts(args)) + "pub struct "@ + builder_name_text(item, args, plan)
        + " { "@ + concat_over(selected(plan.fields@, builder_pick()), builder_field_texts(item, plan))
        + "}\n"@
}

/// The builder's `new` and setters.
pub open spec fn builder_impl_text(item: Item, args: Seq<BuilderOption>, plan: BuilderPlan) -> Seq<char> {
    "impl "@ + builder_name_text(item, args, plan) + " { pub fn new() -> Self { Self { "@ + concat_over(
        selected(plan.fields@, builder_pick()),
        init_texts(item, plan),
    ) + "} } "@ + concat_over(selected(plan.fields@, setter_pick()), setter_texts(item, plan)) + "}\n"@
}

/// The whole generated code.
pub open spec fn generated(item: Item, args: Seq<BuilderOption>, plan: BuilderPlan) -> Seq<char> {
    table_text(item, plan) + builder_struct_text(item, args, plan) + builder_impl_text(item, args, plan)
}

/// Appends the value of the option at `r` of field `f`.
fn push_option_value(out: &mut String, f: &Field, r: OptionRef)
    ensures
        final(out)@ == old(out)@ + option_value(*f, r),
{
    if r.attr < f.attrs.len() {
        match &f.attrs[r.attr].options {
            Some(opts) => {
                if r.option < opts.len() {
                    out.append(opts[r.option].value.as_str());
                    return;
                }
            },
            None => {},
        }
    }
    assert(old(out)@ + option_value(*f, r) =~= old(out)@);
}

/// Appends a field of the emitted struct.
fn push_table_field(out: &mut String, f: &Field)
    ensures
        final(out)@ == old(out)@ + table_field_text(*f),
{
    let ghost g = kept_attr_texts();
    let ghost start = out@;
    let mut k: usize = 0;
    while k < f.attrs.len()
        invariant
            k <= f.attrs@.len(),
            g == kept_attr_texts(),
            out@ == start + concat_over(f.attrs@.take(k as int), g),
        decreases f.attrs@.len() - k,
    {
        proof {
            lemma_concat_step(f.attrs@, g, k as int);
            assert(g(f.attrs@[k as int]) == kept_attr_text(f.attrs@[k as int]));
        }
        if keeps_attr(&f.attrs[k]) {
            out.append(f.attrs[k].text.as_str());
            out.append(" ");
        }
        proof {
            assert(out@ =~= start + concat_over(f.attrs@.take(k + 1), g));
        }
        k += 1;
    }
    proof {
        assert(f.attrs@.take(f.attrs@.len() as int) =~= f.attrs@);
    }
    out.append(f.vis.as_str());
    out.append(" ");
    out.append(f.name.as_str());
    out.append(": ");
    out.append(f.ty.as_str());
    out.append(", ");
    assert(out@ =~= start + table_field_text(*f));
}

/// Appends the name of the builder field of `f`.
fn push_builder_field_name(out: &mut String, f: &Field, c: &FieldConfig)
    ensures
        final(out)@ == old(out)@ + builder_field_name(*f, *c),
{
    match c.flags.name {
        Some(r) => push_option_value(out, f, r),
        None => out.append(f.name.as_str()),
    }
}

/// Appends the type of the builder field of `f`.
fn push_builder_field_ty(out: &mut String, f: &Field, c: &FieldConfig)
    ensures
        final(out)@ == old(out)@ + builder_field_ty(*f, *c),
{
    match c.flags.ty {
        Some(r) => push_option_value(out, f, r),
        None => out.append(f.ty.as_str()),
    }
}

/// Appends a field of the builder.
fn push_builder_field(out: &mut String, f: &Field, c: &FieldConfig)
    ensures
        final(out)@ == old(out)@ + builder_field_text(*f, *c),
{
    let ghost start = out@;
    let ghost ga = passed_attr_texts(*f);
    let ghost go = passed_option_texts(*f);
    let mut k: usize = 0;
    while k < c.pass_attrs.len()
        invariant
            k <= c.pass_attrs@.len(),
            ga == passed_attr_texts(*f),
            out@ == start + concat_over(c.pass_attrs@.take(k as int), ga),
        decreases c.pass_attrs@.len() - k,
    {
        let i = c.pass_attrs[k];
        proof {
            lemma_concat_step(c.pass_attrs@, ga, k as int);
            assert(ga(i) == "#["@ + attr_inner(*f, i) + "] "@);
        }
        out.append("#[");
        if i < f.attrs.len() {
            out.append(f.attrs[i].inner.as_str());
        }
        out.append("] ");
        proof {
            assert(out@ =~= start + concat_over(c.pass_attrs@.take(k + 1), ga));
        }
        k += 1;
    }
    proof {
        assert(c.pass_attrs@.take(c.pass_attrs@.len() as int) =~= c.pass_attrs@);
    }
    let ghost mid = out@;
    let mut k: usize = 0;
    while k < c.pass.len()
        invariant
            k <= c.pass@.len(),
            go == passed_option_texts(*f),
            out@ == mid + concat_over(c.pass@.take(k as int), go),
        decreases c.pass@.len() - k,
    {
        proof {
            lemma_concat_step(c.pass@, go, k as int);
            assert(go(c.pass@[k as int]) == "#["@ + option_value(*f, c.pass@[k as int]) + "] "@);
        }
        out.append("#[");
        push_option_value(out, f, c.pass[k]);
        out.append("] ");
        proof {
            assert(out@ =~= mid + concat_over(c.pass@.take(k + 1), go));
        }
        k += 1;
    }
    proof {
        assert(c.pass@.take(c.pass@.len() as int) =~= c.pass@);
    }
    out.append("pub ");
    push_builder_field_name(out, f, c);
    out.append(": ");
    push_builder_field_ty(out, f, c);
    out.append(", ");
    assert(out@ =~= start + builder_field_text(*f, *c));
}

/// Appends the initializer of a builder field in `new`.
fn push_init(out: &mut String, f: &Field, c: &FieldConfig)
    ensures
        final(out)@ == old(out)@ + init_text(*f, *c),
{
    let ghost start = out@;
    push_builder_field_name(out, f, c);
    out.append(": ");
    match c.flags.init {
        Some(r) => push_option_value(out, f, r),
        None => out.append("Default::default()"),
    }
    out.append(", ");
    assert(out@ =~= start + init_text(*f, *c));
}

/// Appends the setter of a builder field.
fn push_setter(out: &mut String, f: &Field, c: &FieldConfig)
    ensures
        final(out)@ == old(out)@ + setter_text(*f, *c),
{
    let ghost start = out@;
    out.append("pub fn ");
    push_builder_field_name(out, f, c);
    out.append("(mut self, ");
    push_builder_field_name(out, f, c);
    out.append(": ");
    push_builder_field_ty(out, f, c);
    out.append(") -> Self { self.");
    push_builder_field_name(out, f, c);
    out.append(" = ");
    push_builder_field_name(out, f, c);
    out.append("; return self; } ");
    assert(out@ =~= start + setter_text(*f, *c));
}

/// Which text of a builder field: 0 its declaration, 1 its initializer, 2
/// its setter.
pub open spec fn part_texts(item: Item, plan: BuilderPlan, part: u8) -> spec_fn(usize) -> Seq<char> {
    if part == 0 {
        builder_field_texts(item, plan)
    } else if part == 1 {
        init_texts(item, plan)
    } else {
        setter_texts(item, plan)
    }
}

/// Appends, for each field listed in `idx`, the given part of its builder field.
fn push_parts(out: &mut String, item: &Item, plan: &BuilderPlan, idx: &Vec<usize>, part: u8)
    ensures
        final(out)@ == old(out)@ + concat_over(idx@, part_texts(*item, *plan, part)),
{
    let ghost g = part_texts(*item, *plan, part);
    let ghost start = out@;
    let mut k: usize = 0;
    while k < idx.len()
        invariant
            k <= idx@.len(),
            g == part_texts(*item, *plan, part),
            out@ == start + concat_over(idx@.take(k as int), g),
        decreases idx@.len() - k,
    {
        let i = idx[k];
        proof {
            lemma_concat_step(idx@, g, k as int);
        }
        if i < item.fields.len() && i < plan.fields.len() {
            let f = &item.fields[i];
            let c = &plan.fields[i];
            if part == 0 {
                push_builder_field(out, f, c);
            } else if part == 1 {
                push_init(out, f, c);
            } else {
                push_setter(out, f, c);
            }
        }
        proof {
            assert(out@ =~= start + concat_over(idx@.take(k + 1), g));
        }
        k += 1;
    }
    proof {
        assert(idx@.take(idx@.len() as int) =~= idx@);
    }
}

/// Appends the builder's name.
fn push_builder_name(out: &mut String, item: &Item, args: &Vec<BuilderOption>, plan: &BuilderPlan)
    ensures
        final(out)@ == old(out)@ + builder_name_text(*item, args@, *plan),
{
    match plan.name {
        Some(j) => {
            if j < args.len() {
                out.append(args[j].value.as_str());
            } else {
                assert(old(out)@ + builder_name_text(*item, args@, *plan) =~= old(out)@);
            }
        },
        None => out.append(item.name.as_str()),
    }
}

/// Writes the code generated for `item` with the arguments `args` by the plan
/// `plan`: the struct, the builder struct, and the builder's `new` and setters.
pub fn render(item: &Item, args: &Vec<BuilderOption>, plan: &BuilderPlan) -> (s: String)
    ensures
        s@ == generated(*item, args@, *plan),
{
    let layout = output_plan(&plan.fields);
    let mut out = String::new();
    out.append(item.head.as_str());
    out.append(" { ");
    let ghost start = out@;
    let mut k: usize = 0;
    while k < layout.table_fields.len()
        invariant
            k <= layout.table_fields@.len(),
            out@ == start + concat_over(layout.table_fields@.take(k as int), table_texts(*item)),
        decreases layout.table_fields@.len() - k,
    {
        let i = layout.table_fields[k];
        proof {
            lemma_concat_step(layout.table_fields@, table_texts(*item), k as int);
        }
        if i < item.fields.len() {
            push_table_field(&mut out, &item.fields[i]);
        }
        proof {
            assert(out@ =~= start + concat_over(layout.table_fields@.take(k + 1), table_texts(*item)));
        }
        k += 1;
    }
    proof {
        assert(layout.table_fields@.take(layout.table_fields@.len() as int) =~= layout.table_fields@);
    }
    out.append("}\n");
    let ghost table_end = out@;
    assert(table_end == table_text(*item, *plan));
    let mut k: usize = 0;
    while k < plan.pass.len()
        invariant
            k <= plan.pass@.len(),
            out@ == table_end + concat_over(plan.pass@.take(k as int), arg_attr_texts(args@)),
        decreases plan.pass@.len() - k,
    {
        let j = plan.pass[k];
        proof {
            lemma_concat_step(plan.pass@, arg_attr_texts(args@), k as int);
        }
        out.append("#[");
        if j < args.len() {
            out.append(args[j].value.as_str());
        }
        out.append("] ");
        proof {
            assert(out@ =~= table_end + concat_over(plan.pass@.take(k + 1), arg_attr_texts(args@)));
        }
        k += 1;
    }
    proof {
        assert(plan.pass@.take(plan.pass@.len() as int) =~= plan.pass@);
    }
    out.append("pub struct ");
    push_builder_name(&mut out, item, args, plan);
    out.append(" { ");
    push_parts(&mut out, item, plan, &layout.builder_fields, 0);
    out.append("}\n");
    let ghost struct_end = out@;
    assert(struct_end == table_end + builder_struct_text(*item, args@, *plan));
    out.append("impl ");
    push_builder_name(&mut out, item, args, plan);
    out.append(" { pub fn new() -> Self { Self { ");
    push_parts(&mut out, item, plan, &layout.builder_fields, 1);
    out.append("} } ");
    push_parts(&mut out, item, plan, &layout.setters, 2);
    out.append("}\n");
    assert(out@ =~= struct_end + builder_impl_text(*item, args@, *plan));
    out
}

/// What the macro makes of `item` with the arguments `args` (`None` when they
/// do not read as options): the refusal that `plan_builder` gives, or the
/// generated code for the plan of `item` and `args`.
pub fn build(item: &Item, args: &Option<Vec<BuilderOption>>) -> (r: Result<String, BuildError>)
    ensures
        !item.is_struct ==> r == Err::<String, BuildError>(BuildError::NotStruct),
        item.is_struct && args is None ==> r == Err::<String, BuildError>(BuildError::BadArgs),
        item.is_struct && args is Some ==> match apply_args(args->0@) {
            Err(e) => r == Err::<String, BuildError>(e),
            Ok(_) => if exists|i: int| is_first_field_error(item.fields@, i) {
                let i = choose|i: int| is_first_field_error(item.fields@, i);
                r == Err::<String, BuildError>(
                    BuildError::Field { field: i as usize, error: field_flags(item.fields@[i])->Err_0 },
                )
            } else {
                r matches Ok(s) && exists|p: BuilderPlan|
                    plan_is(item.fields@, args->0@, p) && s@ == generated(*item, args->0@, p)
            },
        },
{
    match plan_builder(item, args) {
        Err(e) => Err(e),
        Ok(plan) => {
            let a = match args {
                Some(a) => a,
                None => {
                    return Err(BuildError::BadArgs);
                },
            };
            let s = render(item, a, &plan);
            Ok(s)
        },
    }
}

/// Whether `t` occurs in `s`.
pub open spec fn occurs_in(t: Seq<char>, s: Seq<char>) -> bool {
    exists|a: Seq<char>, b: Seq<char>| s == a + t + b
}

/// What occurs in a part occurs in the whole.
proof fn lemma_occurs_within(t: Seq<char>, s: Seq<char>, a: Seq<char>, b: Seq<char>)
    requires
        occurs_in(t, s),
    ensures
        occurs_in(t, a + s + b),
{
    let (x, y) = choose|x: Seq<char>, y: Seq<char>| s == x + t + y;
    assert(a + s + b =~= (a + x) + t + (y + b));
}

/// The text of each element occurs in the texts of all of them.
proof fn lemma_concat_contains<T>(xs: Seq<T>, g: spec_fn(T) -> Seq<char>, k: int)
    requires
        0 <= k < xs.len(),
    ensures
        occurs_in(g(xs[k]), concat_over(xs, g)),
    decreases xs.len(),
{
    let init = xs.drop_last();
    if k == xs.len() - 1 {
        assert(concat_over(xs, g) =~= concat_over(init, g) + g(xs[k]) + Seq::<char>::empty());
    } else {
        assert(init[k] == xs[k]);
        lemma_concat_contains(init, g, k);
        lemma_occurs_within(g(xs[k]), concat_over(init, g), Seq::empty(), g(xs.last()));
        assert(Seq::<char>::empty() + concat_over(init, g) + g(xs.last()) =~= concat_over(xs, g));
    }
}

/// Each field that stays in the emitted struct is written there with its own
/// visibility, name and type: `vis name: ty, ` occurs in the generated code.
pub proof fn lemma_struct_fields_keep_visibility(
    item: Item,
    args: Seq<BuilderOption>,
    plan: BuilderPlan,
    i: int,
)
    requires
        0 <= i < item.fields@.len(),
        plan.fields@.len() <= usize::MAX,
        i < plan.fields@.len(),
        !plan.fields@[i].flags.skip_table,
    ensures
        occurs_in(
            item.fields@[i].vis@ + " "@ + item.fields@[i].name@ + ": "@ + item.fields@[i].ty@ + ", "@,
            generated(item, args, plan),
        ),
{
    let f = item.fields@[i];
    let t = f.vis@ + " "@ + f.name@ + ": "@ + f.ty@ + ", "@;
    let sel = selected(plan.fields@, table_pick());
    crate::builder::lemma_selected(plan.fields@, table_pick());
    assert(table_pick()(plan.fields@[i].flags));
    let k = choose|k: int| 0 <= k < sel.len() && sel[k] == i as usize;
    lemma_concat_contains(sel, table_texts(item), k);
    assert(table_texts(item)(sel[k]) == table_field_text(f));
    let attrs_text = concat_over(f.attrs@, kept_attr_texts());
    assert(table_field_text(f) =~= attrs_text + t + Seq::<char>::empty());
    assert(occurs_in(t, table_field_text(f)));
    let (x, y) = choose|x: Seq<char>, y: Seq<char>| concat_over(sel, table_texts(item)) == x + table_field_text(f) + y;
    let rest = "}\n"@ + builder_struct_text(item, args, plan) + builder_impl_text(item, args, plan);
    assert(generated(item, args, plan) =~= (item.head@ + " { "@ + x + attrs_text) + t + (y + rest));
}

} // verus!
