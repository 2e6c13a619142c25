use ly::builder::{
    configure_builder, configure_field, kept_attrs, output_plan, plan_builder, Attr, BuildError,
    BuilderOption, Field, FieldError, FieldFlags, Item, MetaShape, OptionRef,
};
use ly::render::build;

fn opt(key: &str) -> BuilderOption {
    BuilderOption { key: String::from(key), has_value: false, value: String::new() }
}

fn val(key: &str, value: &str) -> BuilderOption {
    BuilderOption { key: String::from(key), has_value: true, value: String::from(value) }
}

fn builder_attr(opts: Vec<BuilderOption>) -> Attr {
    Attr {
        path: String::from("builder"),
        shape: MetaShape::List,
        options: Some(opts),
        text: String::from("#[builder(..)]"),
        inner: String::from(".."),
    }
}

fn other_attr(path: &str, inner: &str) -> Attr {
    Attr {
        path: String::from(path),
        shape: MetaShape::List,
        options: None,
        text: format!("#[{}({})]", path, inner),
        inner: String::from(inner),
    }
}

fn path_attr(path: &str) -> Attr {
    Attr {
        path: String::from(path),
        shape: MetaShape::Path,
        options: None,
        text: format!("#[{}]", path),
        inner: String::new(),
    }
}

fn named(name: &str, ty: &str, attrs: Vec<Attr>) -> Field {
    Field { named: true, attrs, vis: String::new(), name: String::from(name), ty: String::from(ty) }
}

fn field(attrs: Vec<Attr>) -> Field {
    named("f", "u8", attrs)
}

fn item(fields: Vec<Field>) -> Item {
    Item { is_struct: true, fields, head: String::from("struct Table"), name: String::from("Table") }
}

fn at(attr: usize, option: usize) -> OptionRef {
    OptionRef { attr, option }
}

// The struct of the macro's documentation example:
//   #[builder(skip)] id, #[builder(skip_table)] ident,
//   #[builder(ty = String, pass = serde(..))] parent,
//   #[builder(init = String::from("data"))] data, #[builder(skip_setter)] complicated
fn table() -> Item {
    item(vec![
        named("id", "usize", vec![builder_attr(vec![opt("skip")])]),
        named("ident", "String", vec![builder_attr(vec![opt("skip_table")])]),
        named(
            "parent",
            "Option < usize >",
            vec![builder_attr(vec![val("ty", "String"), val("pass", "serde (skip)")])],
        ),
        named("data", "String", vec![builder_attr(vec![val("init", "String :: from (\"data\")")])]),
        named("complicated", "String", vec![builder_attr(vec![opt("skip_setter")])]),
    ])
}

#[test]
fn documented_example_plan() {
    let args = Some(vec![val("name", "Builder"), val("pass", "derive (Debug)")]);
    let plan = plan_builder(&table(), &args).unwrap();
    assert_eq!(plan.name, Some(0));
    assert_eq!(plan.pass, vec![1]);
    let f = &plan.fields;
    assert_eq!(f.len(), 5);
    assert!(f[0].flags.skip && !f[0].flags.skip_table && !f[0].flags.skip_setter);
    assert!(!f[1].flags.skip && f[1].flags.skip_table);
    assert_eq!(f[2].flags.ty, Some(at(0, 0)));
    assert_eq!(f[2].pass, vec![at(0, 1)]);
    assert_eq!(f[3].flags.init, Some(at(0, 0)));
    assert_eq!(f[3].flags.ty, None);
    assert!(f[4].flags.skip_setter && !f[4].flags.skip);
    assert_eq!(plan.kept, vec![vec![false]; 5]);
}

#[test]
fn documented_example_code() {
    let args = Some(vec![val("name", "Builder"), val("pass", "derive (Debug)")]);
    let text = build(&table(), &args).unwrap();
    let expected = String::new()
        + "struct Table { "
        + " id: usize, "
        + " parent: Option < usize >, "
        + " data: String, "
        + " complicated: String, "
        + "}\n"
        + "#[derive (Debug)] pub struct Builder { "
        + "pub ident: String, "
        + "#[serde (skip)] pub parent: String, "
        + "pub data: String, "
        + "pub complicated: String, "
        + "}\n"
        + "impl Builder { pub fn new() -> Self { Self { "
        + "ident: Default::default(), "
        + "parent: Default::default(), "
        + "data: String :: from (\"data\"), "
        + "complicated: Default::default(), "
        + "} } "
        + "pub fn ident(mut self, ident: String) -> Self { self.ident = ident; return self; } "
        + "pub fn parent(mut self, parent: String) -> Self { self.parent = parent; return self; } "
        + "pub fn data(mut self, data: String) -> Self { self.data = data; return self; } "
        + "}\n";
    assert_eq!(text, expected);
}

#[test]
fn code_keeps_other_attributes_and_renames() {
    let it = item(vec![named(
        "bytes",
        "Vec < u8 >",
        vec![
            other_attr("serde", "skip"),
            builder_attr(vec![val("name", "raw"), val("def_expr", "vec ! []")]),
            other_attr("builder_pass", "doc = \"x\""),
        ],
    )]);
    let text = build(&it, &Some(vec![])).unwrap();
    let expected = String::new()
        + "struct Table { #[serde(skip)]  bytes: Vec < u8 >, }\n"
        + "pub struct Table { #[doc = \"x\"] pub raw: Vec < u8 >, }\n"
        + "impl Table { pub fn new() -> Self { Self { raw: vec ! [], } } "
        + "pub fn raw(mut self, raw: Vec < u8 >) -> Self { self.raw = raw; return self; } }\n";
    assert_eq!(text, expected);
}

#[test]
fn field_without_builder_attributes() {
    let f = field(vec![other_attr("serde", "skip"), path_attr("doc")]);
    let c = configure_field(&f).unwrap();
    assert_eq!(
        c.flags,
        FieldFlags { skip: false, skip_table: false, skip_setter: false, name: None, ty: None, init: None }
    );
    assert!(c.pass.is_empty() && c.pass_attrs.is_empty());
    assert_eq!(kept_attrs(&f.attrs), vec![true, true]);
}

#[test]
fn last_option_counts_in_the_first_builder_attribute() {
    let f = field(vec![
        builder_attr(vec![
            val("ty", "A"),
            val("pass", "a"),
            val("init", "1"),
            val("pass", "b"),
            val("def_expr", "2"),
            val("ty", "B"),
            val("name", "x"),
            val("unknown", "ignored"),
        ]),
        other_attr("builder_pass", "c"),
        builder_attr(vec![opt("skip"), val("ty", "C")]),
    ]);
    let c = configure_field(&f).unwrap();
    assert_eq!(c.flags.ty, Some(at(0, 5)));
    assert_eq!(c.flags.init, Some(at(0, 4)));
    assert_eq!(c.flags.name, Some(at(0, 6)));
    assert!(!c.flags.skip);
    assert_eq!(c.pass, vec![at(0, 1), at(0, 3)]);
    assert_eq!(c.pass_attrs, vec![1]);
    assert_eq!(kept_attrs(&f.attrs), vec![false, false, false]);
}

#[test]
fn builder_skip_attribute_skips() {
    let f = field(vec![builder_attr(vec![val("skip", "x")]), path_attr("builder_skip")]);
    let c = configure_field(&f).unwrap();
    assert!(c.flags.skip);
    assert_eq!(kept_attrs(&f.attrs), vec![false, false]);
}

#[test]
fn flags_in_one_attribute() {
    let f = field(vec![builder_attr(vec![opt("skip_setter"), opt("skip_table"), opt("skip")])]);
    let c = configure_field(&f).unwrap();
    assert!(c.flags.skip && c.flags.skip_table && c.flags.skip_setter);
}

#[test]
fn field_errors() {
    let unnamed = Field { named: false, attrs: vec![], vis: String::new(), name: String::new(), ty: String::from("u8") };
    assert_eq!(configure_field(&unnamed).unwrap_err(), FieldError::Unnamed);

    let flag_with_value = field(vec![other_attr("x", ""), builder_attr(vec![val("skip", "1")])]);
    assert_eq!(configure_field(&flag_with_value).unwrap_err(), FieldError::BadValue(at(1, 0)));

    let key_without_value = field(vec![builder_attr(vec![val("ty", "u8"), opt("init")])]);
    assert_eq!(configure_field(&key_without_value).unwrap_err(), FieldError::BadValue(at(0, 1)));

    let unreadable = field(vec![path_attr("doc"), other_attr("builder", "?")]);
    assert_eq!(configure_field(&unreadable).unwrap_err(), FieldError::BadOptions { attr: 1 });

    let not_a_list = field(vec![path_attr("builder")]);
    assert!(configure_field(&not_a_list).is_ok());
}

#[test]
fn builder_arguments() {
    let (name, pass) = configure_builder(&vec![
        val("name", "A"),
        val("pass", "p"),
        val("name", "B"),
        val("other", "x"),
        val("pass", "q"),
    ])
    .unwrap();
    assert_eq!(name, Some(2));
    assert_eq!(pass, vec![1, 4]);
    let (name, pass) = configure_builder(&vec![]).unwrap();
    assert_eq!(name, None);
    assert!(pass.is_empty());
    assert_eq!(
        configure_builder(&vec![val("name", "A"), opt("pass")]).unwrap_err(),
        BuildError::BadArg { option: 1 }
    );
}

#[test]
fn plan_errors_in_order() {
    let not_struct = Item { is_struct: false, fields: vec![], head: String::new(), name: String::new() };
    assert_eq!(plan_builder(&not_struct, &None).unwrap_err(), BuildError::NotStruct);
    assert_eq!(build(&not_struct, &None).unwrap_err(), BuildError::NotStruct);
    assert_eq!(plan_builder(&table(), &None).unwrap_err(), BuildError::BadArgs);
    assert_eq!(
        plan_builder(&table(), &Some(vec![opt("name")])).unwrap_err(),
        BuildError::BadArg { option: 0 }
    );
    let mut it = table();
    it.fields[3] = field(vec![builder_attr(vec![val("skip", "1")])]);
    it.fields[4] = Field { named: false, attrs: vec![], vis: String::new(), name: String::new(), ty: String::new() };
    assert_eq!(
        plan_builder(&it, &Some(vec![])).unwrap_err(),
        BuildError::Field { field: 3, error: FieldError::BadValue(at(0, 0)) }
    );
    assert_eq!(
        build(&it, &Some(vec![])).unwrap_err(),
        BuildError::Field { field: 3, error: FieldError::BadValue(at(0, 0)) }
    );
}

// #[builder(name = Builder, pass = derive(Debug, Default))] struct Table {
//     #[builder(skip)] id1: usize,
//     #[builder(init = String::from("test"))] data: String,
//     #[builder(skip_table, ty = Option<i32>, init = Some(10))] id2: usize,
//     #[builder(pass = serde(skip_serializing_if = "String::is_empty"))] string: String,
// }
#[test]
fn test_macro_quote() {
    let it = item(vec![
        named("id1", "usize", vec![builder_attr(vec![opt("skip")])]),
        named("data", "String", vec![builder_attr(vec![val("init", "String :: from (\"test\")")])]),
        named(
            "id2",
            "usize",
            vec![builder_attr(vec![opt("skip_table"), val("ty", "Option < i32 >"), val("init", "Some (10)")])],
        ),
        named("string", "String", vec![builder_attr(vec![val("pass", "serde (skip_serializing_if = \"String::is_empty\")")])]),
    ]);
    let args = Some(vec![val("name", "Builder"), val("pass", "derive (Debug , Default)")]);
    let plan = plan_builder(&it, &args).unwrap();
    assert_eq!(plan.name, Some(0));
    assert_eq!(plan.pass, vec![1]);
    assert!(plan.fields[0].flags.skip);
    assert_eq!(plan.fields[1].flags.init, Some(at(0, 0)));
    assert!(plan.fields[2].flags.skip_table);
    assert_eq!(plan.fields[2].flags.ty, Some(at(0, 1)));
    assert_eq!(plan.fields[2].flags.init, Some(at(0, 2)));
    assert_eq!(plan.fields[3].pass, vec![at(0, 0)]);
    let layout = output_plan(&plan.fields);
    assert_eq!(layout.table_fields, vec![0, 1, 3]);
    assert_eq!(layout.builder_fields, vec![1, 2, 3]);
    assert_eq!(layout.setters, vec![1, 2, 3]);
    assert!(build(&it, &args).is_ok());
}

// builder(skip), builder(init = String::from("test")), twice.
#[test]
fn test_field() {
    let skip = configure_field(&field(vec![builder_attr(vec![opt("skip")])])).unwrap();
    assert!(skip.flags.skip);
    for _ in 0..2 {
        let init = configure_field(&field(vec![builder_attr(vec![val("init", "String :: from (\"test\")")])])).unwrap();
        assert_eq!(init.flags.init, Some(at(0, 0)));
        assert!(!init.flags.skip);
    }
}

// #[serde(skip)] #[builder(def_expr = String::from("text"), ty = String, pass = ((serde(skip))))]
// bytes: std::Vec<u8>, and the same with the two attributes swapped.
#[test]
fn test_param() {
    let opts = || vec![val("def_expr", "String :: from (\"text\")"), val("ty", "String"), val("pass", "((serde (skip)))")];
    let first = named("bytes", "std :: Vec < u8 >", vec![other_attr("serde", "skip"), builder_attr(opts())]);
    let second = named("bytes", "std :: Vec < u8 >", vec![builder_attr(opts()), other_attr("serde", "skip")]);
    let a = configure_field(&first).unwrap();
    let b = configure_field(&second).unwrap();
    assert_eq!(a.flags.init, Some(at(1, 0)));
    assert_eq!(a.flags.ty, Some(at(1, 1)));
    assert_eq!(b.flags.init, Some(at(0, 0)));
    assert_eq!(b.flags.ty, Some(at(0, 1)));
    assert!(!a.flags.skip && !b.flags.skip);
    assert_eq!(a.pass.len(), 1);
    assert_eq!(b.pass.len(), 1);
}

#[test]
fn documented_example_layout() {
    let plan = plan_builder(&table(), &Some(vec![])).unwrap();
    let layout = output_plan(&plan.fields);
    assert_eq!(layout.table_fields, vec![0, 2, 3, 4]);
    assert_eq!(layout.builder_fields, vec![1, 2, 3, 4]);
    assert_eq!(layout.setters, vec![1, 2, 3]);
}
