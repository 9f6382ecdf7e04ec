//! Safe wrappers for foreign functions.
//!
//! Some kernel functions are safe to call although they are foreign. Each of
//! them is listed in a registry, with the reasons for which it is safe. The
//! foreign declaration of such a function is given a prefixed name, and a
//! wrapper under the function's own name forwards every parameter to it.

use crate::split::{join, joined};
use crate::text::{
    chars_of, extend_chars, push_chars, rows, same_chars, string_of, texts,
};
use vstd::prelude::*;

verus! {

/// Combines function name and safety reasoning to enforce safety reasoning
/// for every function that is wrapped.
#[derive(Debug, PartialEq)]
pub struct SafeFunctionWrapper {
    pub function_name: String,
    pub safety_reasoning: Vec<String>,
}

/// One parameter of a function: its name and the text of its type.
#[derive(Debug, PartialEq)]
pub struct Parameter {
    pub name: String,
    pub ty: String,
}

/// A foreign function declaration: its name, its parameters in order, and
/// the text of its return type where it has one.
#[derive(Debug, PartialEq)]
pub struct ForeignDeclaration {
    pub name: String,
    pub parameters: Vec<Parameter>,
    pub return_type: Option<String>,
}

/// One item of the bindings.
#[derive(Debug, PartialEq)]
pub enum Declaration {
    /// A foreign block that declares one function.
    ForeignFunction(ForeignDeclaration),
    /// Anything else.
    Other,
}

/// A safe function that forwards its parameters to a foreign function.
#[derive(Debug, PartialEq)]
pub struct SafeWrapper {
    pub name: String,
    pub parameters: Vec<Parameter>,
    pub return_type: Option<String>,
    pub callee: String,
    pub arguments: Vec<String>,
}

/// The mathematical value of a `SafeFunctionWrapper`.
pub struct SafeFunctionView {
    pub function_name: Seq<char>,
    pub safety_reasoning: Seq<Seq<char>>,
}

/// The mathematical value of a `Parameter`.
pub struct ParameterView {
    pub name: Seq<char>,
    pub ty: Seq<char>,
}

/// The mathematical value of a `ForeignDeclaration`.
pub struct ForeignDeclarationView {
    pub name: Seq<char>,
    pub parameters: Seq<ParameterView>,
    pub return_type: Option<Seq<char>>,
}

/// The mathematical value of a `Declaration`.
pub enum DeclarationView {
    ForeignFunction(ForeignDeclarationView),
    Other,
}

/// The mathematical value of a `SafeWrapper`.
pub struct SafeWrapperView {
    pub name: Seq<char>,
    pub parameters: Seq<ParameterView>,
    pub return_type: Option<Seq<char>>,
    pub callee: Seq<char>,
    pub arguments: Seq<Seq<char>>,
}

impl View for SafeFunctionWrapper {
    type V = SafeFunctionView;

    open spec fn view(&self) -> SafeFunctionView {
        SafeFunctionView {
            function_name: self.function_name@,
            safety_reasoning: texts(self.safety_reasoning@),
        }
    }
}

impl View for Parameter {
    type V = ParameterView;

    open spec fn view(&self) -> ParameterView {
        ParameterView { name: self.name@, ty: self.ty@ }
    }
}

/// The values of a list of parameters.
pub open spec fn parameter_views(list: Seq<Parameter>) -> Seq<ParameterView> {
    list.map_values(|p: Parameter| p@)
}

/// The value of a text that may be absent.
pub open spec fn optional_text(text: Option<String>) -> Option<Seq<char>> {
    match text {
        Some(t) => Some(t@),
        None => None,
    }
}

impl View for ForeignDeclaration {
    type V = ForeignDeclarationView;

    open spec fn view(&self) -> ForeignDeclarationView {
        ForeignDeclarationView {
            name: self.name@,
            parameters: parameter_views(self.parameters@),
            return_type: optional_text(self.return_type),
        }
    }
}

impl View for Declaration {
    type V = DeclarationView;

    open spec fn view(&self) -> DeclarationView {
        match self {
            Declaration::ForeignFunction(f) => DeclarationView::ForeignFunction(f@),
            Declaration::Other => DeclarationView::Other,
        }
    }
}

impl View for SafeWrapper {
    type V = SafeWrapperView;

    open spec fn view(&self) -> SafeWrapperView {
        SafeWrapperView {
            name: self.name@,
            parameters: parameter_views(self.parameters@),
            return_type: optional_text(self.return_type),
            callee: self.callee@,
            arguments: texts(self.arguments@),
        }
    }
}

/// The values of a registry.
pub open spec fn registry_views(registry: Seq<SafeFunctionWrapper>) -> Seq<SafeFunctionView> {
    registry.map_values(|s: SafeFunctionWrapper| s@)
}

/// The values of a list of declarations.
pub open spec fn declaration_views(items: Seq<Declaration>) -> Seq<DeclarationView> {
    items.map_values(|d: Declaration| d@)
}

/// The values of a list of wrappers.
pub open spec fn wrapper_views(wrappers: Seq<SafeWrapper>) -> Seq<SafeWrapperView> {
    wrappers.map_values(|w: SafeWrapper| w@)
}

/// The prefix that the name of a wrapped foreign declaration carries.
pub open spec fn foreign_prefix() -> Seq<char> {
    seq!['_', '_']
}

/// The name with the prefix before it.
pub open spec fn prefixed(name: Seq<char>) -> Seq<char> {
    foreign_prefix() + name
}

/// The name without the prefix, where it carries the prefix.
pub open spec fn stripped(name: Seq<char>) -> Option<Seq<char>> {
    if name.len() >= 2 && name[0] == '_' && name[1] == '_' {
        Some(name.skip(2))
    } else {
        None
    }
}

/// The position of the first entry of the registry for `name`.
pub open spec fn registry_index(registry: Seq<SafeFunctionView>, name: Seq<char>) -> Option<int>
    decreases registry.len(),
{
    if registry.len() == 0 {
        None
    } else {
        match registry_index(registry.drop_last(), name) {
            Some(i) => Some(i),
            None => if registry.last().function_name == name {
                Some(registry.len() - 1)
            } else {
                None
            },
        }
    }
}

/// Whether the registry lists `name`.
pub open spec fn lists(registry: Seq<SafeFunctionView>, name: Seq<char>) -> bool {
    registry_index(registry, name) is Some
}

/// The names of `parameters`, in order.
pub open spec fn parameter_names(parameters: Seq<ParameterView>) -> Seq<Seq<char>> {
    parameters.map_values(|p: ParameterView| p.name)
}

/// The wrapper for the foreign declaration `f` under the name `name`: it
/// has the parameters and the return type of `f`, and hands each parameter
/// to `f`, by name and in order.
pub open spec fn forwarding_wrapper(f: ForeignDeclarationView, name: Seq<char>) -> SafeWrapperView {
    SafeWrapperView {
        name,
        parameters: f.parameters,
        return_type: f.return_type,
        callee: f.name,
        arguments: parameter_names(f.parameters),
    }
}

/// The wrapper that `item` is given: one for a foreign function whose name
/// carries the prefix and is, without it, listed in the registry.
pub open spec fn wrapper_for(
    item: DeclarationView,
    registry: Seq<SafeFunctionView>,
) -> Option<SafeWrapperView> {
    match item {
        DeclarationView::ForeignFunction(f) => match stripped(f.name) {
            Some(name) => if lists(registry, name) {
                Some(forwarding_wrapper(f, name))
            } else {
                None
            },
            None => None,
        },
        DeclarationView::Other => None,
    }
}

/// The wrappers that `items` are given, in the order of the items.
pub open spec fn wrappers_for(
    items: Seq<DeclarationView>,
    registry: Seq<SafeFunctionView>,
) -> Seq<SafeWrapperView>
    decreases items.len(),
{
    if items.len() == 0 {
        Seq::<SafeWrapperView>::empty()
    } else {
        let before = wrappers_for(items.drop_last(), registry);
        match wrapper_for(items.last(), registry) {
            Some(wrapper) => before.push(wrapper),
            None => before,
        }
    }
}

/// Finds the first entry of the registry for `name`.
pub fn find_safe_function(registry: &Vec<SafeFunctionWrapper>, name: &str) -> (found: Option<usize>)
    ensures
        match found {
            Some(i) => registry_index(registry_views(registry@), name@) == Some(i as int) && i
                < registry.len() && registry@[i as int].function_name@ == name@,
            None => !lists(registry_views(registry@), name@),
        },
{
    let wanted = chars_of(name);
    let ghost all = registry_views(registry@);
    assert(all.take(0) =~= Seq::<SafeFunctionView>::empty());
    for i in 0..registry.len()
        invariant
            all == registry_views(registry@),
            wanted@ == name@,
            registry_index(all.take(i as int), name@) is None,
    {
        assert(all.take(i + 1).drop_last() =~= all.take(i as int));
        assert(all.take(i + 1).last() == registry@[i as int]@);
        let here = chars_of(registry[i].function_name.as_str());
        if same_chars(&here, &wanted) {
            proof {
                lemma_registry_index_extends(all, i + 1, name@);
            }
            return Some(i);
        }
    }
    assert(all.take(registry.len() as int) =~= all);
    None
}

proof fn lemma_registry_index_extends(registry: Seq<SafeFunctionView>, n: int, name: Seq<char>)
    requires
        0 <= n <= registry.len(),
        registry_index(registry.take(n), name) is Some,
    ensures
        registry_index(registry, name) == registry_index(registry.take(n), name),
    decreases registry.len() - n,
{
    if n < registry.len() {
        assert(registry.take(n + 1).drop_last() =~= registry.take(n));
        lemma_registry_index_extends(registry, n + 1, name);
    } else {
        assert(registry.take(n) =~= registry);
    }
}

fn copy_parameters(parameters: &Vec<Parameter>) -> (out: Vec<Parameter>)
    ensures
        parameter_views(out@) == parameter_views(parameters@),
{
    let mut out: Vec<Parameter> = Vec::new();
    for i in 0..parameters.len()
        invariant
            out@.len() == i,
            forall|k: int| 0 <= k < i ==> (#[trigger] out@[k])@ == parameters@[k]@,
    {
        out.push(Parameter { name: parameters[i].name.clone(), ty: parameters[i].ty.clone() });
    }
    assert(parameter_views(out@) =~= parameter_views(parameters@));
    out
}

fn names_of(parameters: &Vec<Parameter>) -> (out: Vec<String>)
    ensures
        texts(out@) == parameter_names(parameter_views(parameters@)),
{
    let mut out: Vec<String> = Vec::new();
    for i in 0..parameters.len()
        invariant
            out@.len() == i,
            forall|k: int| 0 <= k < i ==> (#[trigger] out@[k])@ == parameters@[k].name@,
    {
        out.push(parameters[i].name.clone());
    }
    assert(texts(out@) =~= parameter_names(parameter_views(parameters@)));
    out
}

/// Takes the prefix off `name`, where it carries the prefix.
pub fn strip_foreign_prefix(name: &str) -> (out: Option<String>)
    ensures
        match out {
            Some(rest) => stripped(name@) == Some(rest@),
            None => stripped(name@) is None,
        },
{
    let chars = chars_of(name);
    if chars.len() >= 2 && chars[0] == '_' && chars[1] == '_' {
        let mut rest: Vec<char> = Vec::new();
        for i in 2..chars.len()
            invariant
                2 <= chars.len(),
                rest@ == chars@.subrange(2, i as int),
        {
            rest.push(chars[i]);
        }
        assert(chars@.subrange(2, chars.len() as int) =~= chars@.skip(2));
        Some(string_of(&rest))
    } else {
        None
    }
}

/// Creates a wrapper for the supplied item if it is a foreign function
/// that the registry lists.
///
/// Returns `None` for any other item.
pub fn try_generate_safe_function_wrapper(
    item: &Declaration,
    safe_functions: &Vec<SafeFunctionWrapper>,
) -> (out: Option<SafeWrapper>)
    ensures
        match out {
            Some(wrapper) => wrapper_for(item@, registry_views(safe_functions@)) == Some(wrapper@),
            None => wrapper_for(item@, registry_views(safe_functions@)) is None,
        },
{
    match item {
        Declaration::ForeignFunction(f) => {
            let name = match strip_foreign_prefix(f.name.as_str()) {
                Some(name) => name,
                None => {
                    return None;
                },
            };
            if find_safe_function(safe_functions, name.as_str()).is_none() {
                return None;
            }
            Some(
                SafeWrapper {
                    name,
                    parameters: copy_parameters(&f.parameters),
                    return_type: f.return_type.clone(),
                    callee: f.name.clone(),
                    arguments: names_of(&f.parameters),
                },
            )
        },
        Declaration::Other => None,
    }
}

/// Creates the safe wrappers for all items of the bindings, in the order of
/// the items.
pub fn synthesize(items: &Vec<Declaration>, safe_functions: &Vec<SafeFunctionWrapper>) -> (out: Vec<
    SafeWrapper,
>)
    ensures
        wrapper_views(out@) == wrappers_for(
            declaration_views(items@),
            registry_views(safe_functions@),
        ),
{
    let mut out: Vec<SafeWrapper> = Vec::new();
    let ghost all = declaration_views(items@);
    let ghost registry = registry_views(safe_functions@);
    assert(all.take(0) =~= Seq::<DeclarationView>::empty());
    assert(wrapper_views(out@) =~= wrappers_for(all.take(0), registry));
    for i in 0..items.len()
        invariant
            all == declaration_views(items@),
            registry == registry_views(safe_functions@),
            wrapper_views(out@) == wrappers_for(all.take(i as int), registry),
    {
        let ghost before = wrapper_views(out@);
        assert(all.take(i + 1).drop_last() =~= all.take(i as int));
        assert(all.take(i + 1).last() == items@[i as int]@);
        match try_generate_safe_function_wrapper(&items[i], safe_functions) {
            Some(wrapper) => {
                out.push(wrapper);
                assert(wrapper_views(out@) =~= before.push(wrapper@));
            },
            None => {},
        }
    }
    assert(all.take(items.len() as int) =~= all);
    out
}

/// The declaration of one parameter: its name, a colon and its type.
pub open spec fn parameter_text(parameter: ParameterView) -> Seq<char> {
    parameter.name + ": "@ + parameter.ty
}

/// The source text of a wrapper: a public function with the wrapper's
/// name, parameters and return type, whose body calls the foreign function
/// with the arguments, inside a block that marks the call as unchecked.
pub open spec fn wrapper_text(wrapper: SafeWrapperView) -> Seq<char> {
    "pub fn "@ + wrapper.name + "("@ + joined(
        wrapper.parameters.map_values(|p: ParameterView| parameter_text(p)),
        ", "@,
    ) + ")"@ + match wrapper.return_type {
        Some(ty) => " -> "@ + ty,
        None => Seq::<char>::empty(),
    } + " {\n    unsafe { "@ + wrapper.callee + "("@ + joined(wrapper.arguments, ", "@)
        + ") }\n}\n"@
}

/// The source texts of `wrappers`, in a row.
pub open spec fn wrappers_text(wrappers: Seq<SafeWrapperView>) -> Seq<char>
    decreases wrappers.len(),
{
    if wrappers.len() == 0 {
        Seq::<char>::empty()
    } else {
        wrappers_text(wrappers.drop_last()) + wrapper_text(wrappers.last())
    }
}

impl SafeWrapper {
    /// Writes the wrapper as source text.
    pub fn to_source(&self) -> (out: String)
        ensures
            out@ == wrapper_text(self@),
    {
        let mut declared: Vec<Vec<char>> = Vec::new();
        for i in 0..self.parameters.len()
            invariant
                declared@.len() == i,
                forall|k: int|
                    0 <= k < i ==> (#[trigger] declared@[k])@ == parameter_text(
                        self.parameters@[k]@,
                    ),
        {
            let mut text: Vec<char> = Vec::new();
            push_chars(&mut text, self.parameters[i].name.as_str());
            push_chars(&mut text, ": ");
            push_chars(&mut text, self.parameters[i].ty.as_str());
            assert(text@ =~= parameter_text(self.parameters@[i as int]@));
            declared.push(text);
        }
        assert(rows(declared@) =~= self@.parameters.map_values(
            |p: ParameterView| parameter_text(p),
        ));
        let mut passed: Vec<Vec<char>> = Vec::new();
        for i in 0..self.arguments.len()
            invariant
                passed@.len() == i,
                forall|k: int| 0 <= k < i ==> (#[trigger] passed@[k])@ == self.arguments@[k]@,
        {
            passed.push(chars_of(self.arguments[i].as_str()));
        }
        assert(rows(passed@) =~= self@.arguments);
        let mut out: Vec<char> = Vec::new();
        push_chars(&mut out, "pub fn ");
        push_chars(&mut out, self.name.as_str());
        push_chars(&mut out, "(");
        extend_chars(&mut out, &join(&declared, ", "));
        push_chars(&mut out, ")");
        let ghost head = out@;
        match &self.return_type {
            Some(ty) => {
                push_chars(&mut out, " -> ");
                push_chars(&mut out, ty.as_str());
                assert(out@ =~= head + (" -> "@ + ty@));
            },
            None => {
                assert(out@ =~= head + Seq::<char>::empty());
            },
        }
        push_chars(&mut out, " {\n    unsafe { ");
        push_chars(&mut out, self.callee.as_str());
        push_chars(&mut out, "(");
        extend_chars(&mut out, &join(&passed, ", "));
        push_chars(&mut out, ") }\n}\n");
        string_of(&out)
    }
}

/// The bindings with the safe wrappers for `items` behind them.
pub open spec fn with_safe_wrappers(
    bindings: Seq<char>,
    items: Seq<DeclarationView>,
    registry: Seq<SafeFunctionView>,
) -> Seq<char> {
    bindings + wrappers_text(wrappers_for(items, registry))
}

/// Creates safe wrappers around foreign functions.
///
/// `items` are the items that `bindings` declares. The result is the text
/// of the bindings, followed by the source text of a wrapper for each item
/// that is a foreign function listed in `safe_functions`.
pub fn generate_safe_function_wrappers(
    bindings: String,
    items: &Vec<Declaration>,
    safe_functions: &Vec<SafeFunctionWrapper>,
) -> (out: String)
    ensures
        out@ == with_safe_wrappers(
            bindings@,
            declaration_views(items@),
            registry_views(safe_functions@),
        ),
{
    let wrappers = synthesize(items, safe_functions);
    let mut out = bindings;
    let ghost all = wrapper_views(wrappers@);
    assert(all.take(0) =~= Seq::<SafeWrapperView>::empty());
    assert(out@ + Seq::<char>::empty() =~= out@);
    for i in 0..wrappers.len()
        invariant
            all == wrapper_views(wrappers@),
            out@ == bindings@ + wrappers_text(all.take(i as int)),
    {
        assert(all.take(i + 1).drop_last() =~= all.take(i as int));
        assert(all.take(i + 1).last() == wrappers@[i as int]@);
        let text = wrappers[i].to_source();
        out.append(text.as_str());
        assert(out@ =~= bindings@ + (wrappers_text(all.take(i as int)) + wrapper_text(
            wrappers@[i as int]@,
        )));
    }
    assert(all.take(wrappers.len() as int) =~= all);
    out
}

/// Gives the functions of the registry a prefixed name in the bindings.
#[derive(Debug)]
pub struct PrependUnderscoresCallback {
    pub function_names: Vec<String>,
}

/// The names of the functions that a registry lists, in order.
pub open spec fn registry_names(registry: Seq<SafeFunctionView>) -> Seq<Seq<char>> {
    registry.map_values(|s: SafeFunctionView| s.function_name)
}

/// The name that a foreign function is declared under, where it is
/// renamed: a function that `names` holds gets the prefix.
pub open spec fn name_override(names: Seq<Seq<char>>, name: Seq<char>) -> Option<Seq<char>> {
    if names.contains(name) {
        Some(prefixed(name))
    } else {
        None
    }
}

impl PrependUnderscoresCallback {
    /// Collects the names of the functions of the registry.
    pub fn new(safe_functions: &Vec<SafeFunctionWrapper>) -> (out: Self)
        ensures
            texts(out.function_names@) == registry_names(registry_views(safe_functions@)),
    {
        let mut function_names: Vec<String> = Vec::new();
        for i in 0..safe_functions.len()
            invariant
                function_names@.len() == i,
                forall|k: int|
                    0 <= k < i ==> (#[trigger] function_names@[k])@
                        == safe_functions@[k].function_name@,
        {
            function_names.push(safe_functions[i].function_name.clone());
        }
        assert(texts(function_names@) =~= registry_names(registry_views(safe_functions@)));
        Self { function_names }
    }

    /// The name to declare the foreign function `name` under, where it is
    /// to be renamed.
    pub fn generated_name_override(&self, name: &str) -> (out: Option<String>)
        ensures
            match out {
                Some(renamed) => name_override(texts(self.function_names@), name@) == Some(
                    renamed@,
                ),
                None => name_override(texts(self.function_names@), name@) is None,
            },
    {
        let wanted = chars_of(name);
        let ghost names = texts(self.function_names@);
        for i in 0..self.function_names.len()
            invariant
                names == texts(self.function_names@),
                wanted@ == name@,
                forall|k: int| 0 <= k < i ==> names[k] != name@,
        {
            let here = chars_of(self.function_names[i].as_str());
            if same_chars(&here, &wanted) {
                let mut renamed: Vec<char> = Vec::new();
                renamed.push('_');
                renamed.push('_');
                extend_chars(&mut renamed, &wanted);
                assert(renamed@ =~= prefixed(name@));
                assert(names[i as int] == name@);
                return Some(string_of(&renamed));
            }
        }
        None
    }
}

/// Names the types of the bindings that can be formatted for logging.
#[derive(Debug)]
pub struct DeriveDefmtCallbacks {
    pub derive_defmt: Vec<String>,
}

/// The derives that are added to the type `name`: the formatting derive for
/// a type that `names` holds, none for any other.
pub open spec fn added_derives(names: Seq<Seq<char>>, name: Seq<char>) -> Seq<Seq<char>> {
    if names.contains(name) {
        seq!["defmt::Format"@]
    } else {
        Seq::<Seq<char>>::empty()
    }
}

impl DeriveDefmtCallbacks {
    /// Keeps the names of the types that get the derive.
    pub fn new(derive_defmt: &Vec<String>) -> (out: Self)
        ensures
            texts(out.derive_defmt@) == texts(derive_defmt@),
    {
        let mut names: Vec<String> = Vec::new();
        for i in 0..derive_defmt.len()
            invariant
                names@.len() == i,
                forall|k: int| 0 <= k < i ==> (#[trigger] names@[k])@ == derive_defmt@[k]@,
        {
            names.push(derive_defmt[i].clone());
        }
        assert(texts(names@) =~= texts(derive_defmt@));
        Self { derive_defmt: names }
    }

    /// The derives to add to the type `name`.
    pub fn add_derives(&self, name: &str) -> (out: Vec<String>)
        ensures
            texts(out@) == added_derives(texts(self.derive_defmt@), name@),
    {
        let wanted = chars_of(name);
        let ghost names = texts(self.derive_defmt@);
        for i in 0..self.derive_defmt.len()
            invariant
                names == texts(self.derive_defmt@),
                wanted@ == name@,
                forall|k: int| 0 <= k < i ==> names[k] != name@,
        {
            let here = chars_of(self.derive_defmt[i].as_str());
            if same_chars(&here, &wanted) {
                let out = vec!["defmt::Format".to_owned()];
                assert(names[i as int] == name@);
                assert(texts(out@) =~= seq!["defmt::Format"@]);
                return out;
            }
        }
        let out: Vec<String> = Vec::new();
        assert(texts(out@) =~= Seq::<Seq<char>>::empty());
        out
    }
}

/// Taking the prefix off a prefixed name gives the name back.
pub proof fn lemma_prefix_comes_off(name: Seq<char>)
    ensures
        stripped(prefixed(name)) == Some(name),
{
    assert(prefixed(name).skip(2) =~= name);
}

/// The registry lists a name exactly where one of its entries has it.
pub proof fn lemma_lists_its_names(registry: Seq<SafeFunctionView>, name: Seq<char>)
    ensures
        lists(registry, name) == registry_names(registry).contains(name),
        registry_index(registry, name) matches Some(i) ==> 0 <= i < registry.len()
            && registry[i].function_name == name,
    decreases registry.len(),
{
    let names = registry_names(registry);
    if registry.len() > 0 {
        let shorter = registry.drop_last();
        lemma_lists_its_names(shorter, name);
        assert(registry_names(shorter) =~= names.drop_last());
        if registry_names(shorter).contains(name) {
            let k = choose|k: int| 0 <= k < names.drop_last().len() && names.drop_last()[k] == name;
            assert(names[k] == name);
        } else if registry.last().function_name == name {
            assert(names[registry.len() - 1] == name);
        } else {
            if names.contains(name) {
                let k = choose|k: int| 0 <= k < names.len() && names[k] == name;
                assert(names.drop_last()[k] == name);
            }
        }
    }
}

/// A function of the registry that is declared under the name that the
/// callback gives it gets a wrapper under its own name, which has the
/// parameters and the return type of the declaration and hands on each
/// parameter, by name and in order.
pub proof fn lemma_renamed_function_is_wrapped(
    f: ForeignDeclarationView,
    name: Seq<char>,
    registry: Seq<SafeFunctionView>,
)
    requires
        name_override(registry_names(registry), name) == Some(f.name),
    ensures
        wrapper_for(DeclarationView::ForeignFunction(f), registry) == Some(
            forwarding_wrapper(f, name),
        ),
        forwarding_wrapper(f, name).name == name,
        forwarding_wrapper(f, name).callee == f.name,
        forwarding_wrapper(f, name).parameters == f.parameters,
        forwarding_wrapper(f, name).return_type == f.return_type,
        forwarding_wrapper(f, name).arguments.len() == f.parameters.len(),
        forall|i: int|
            0 <= i < f.parameters.len() ==> (#[trigger] forwarding_wrapper(f, name).arguments[i])
                == f.parameters[i].name,
{
    lemma_prefix_comes_off(name);
    lemma_lists_its_names(registry, name);
}

/// Where no item is a foreign function under a prefixed name of the
/// registry, there are no wrappers.
pub proof fn lemma_no_match_no_wrapper(items: Seq<DeclarationView>, registry: Seq<SafeFunctionView>)
    requires
        forall|i: int| 0 <= i < items.len() ==> wrapper_for(#[trigger] items[i], registry) is None,
    ensures
        wrappers_for(items, registry).len() == 0,
    decreases items.len(),
{
    if items.len() > 0 {
        assert(forall|i: int|
            0 <= i < items.drop_last().len() ==> items.drop_last()[i] == items[i]);
        lemma_no_match_no_wrapper(items.drop_last(), registry);
    }
}

/// There are never more wrappers than items: each item is given one
/// wrapper at most.
pub proof fn lemma_one_wrapper_at_most(items: Seq<DeclarationView>, registry: Seq<SafeFunctionView>)
    ensures
        wrappers_for(items, registry).len() <= items.len(),
    decreases items.len(),
{
    if items.len() > 0 {
        lemma_one_wrapper_at_most(items.drop_last(), registry);
    }
}

} // verus!
