use vstd::prelude::*;
use crate::ast::{Attribute, Stmt};
use crate::codegen::table::Table;
use crate::codegen::gen::{CodeGen, Emitted};
use crate::codegen::llvm::{get_function, enum_kind_id, add_function_attribute};

verus! {

/// What an attribute handler does.
#[derive(Clone, Copy, PartialEq, Eq, Structural)]
pub enum AttributeAction {
    /// Prints a line saying that the test attribute was called.
    PrintTest,
    /// Marks the declared function to be inlined wherever it is called.
    MarkInline,
}

/// A handler that an attribute name calls on the declaration it stands on.
#[derive(Clone, Copy)]
pub struct AttributeHandler {
    inner: AttributeAction,
}

impl AttributeHandler {
    /// A handler doing `action`.
    pub fn new(action: AttributeAction) -> (res: Self)
        ensures
            res.action() == action,
    {
        AttributeHandler { inner: action }
    }

    pub closed spec fn action(&self) -> AttributeAction {
        self.inner
    }

    /// Runs the handler for the attribute `attr_name` on `stmt`.
    pub fn call(&self, attr_name: &String, stmt: &Stmt, codegen: &mut CodeGen)
        -> (res: Result<(), String>)
        ensures
            final(codegen).keeps(old(codegen)),
            final(codegen).variables@ == old(codegen).variables@,
            final(codegen).functions@ == old(codegen).functions@,
            final(codegen).loop_exit_stack@ == old(codegen).loop_exit_stack@,
            final(codegen).attr_registry.handlers@ == old(codegen).attr_registry.handlers@,
            self.action() == AttributeAction::MarkInline ==> res is Ok,
            (self.action() == AttributeAction::MarkInline && stmt is FnDecl) ==>
                final(codegen).inline_fns@.len() == old(codegen).inline_fns@.len() + 1,
            self.action() == AttributeAction::MarkInline ==> (*stmt matches Stmt::FnDecl { name, .. } ==>
                final(codegen).inline_fns@ == old(codegen).inline_fns@.push(name)),
            self.action() == AttributeAction::MarkInline ==> (*stmt matches Stmt::FnDecl { name, .. } ==>
                inlined_records(old(codegen).emitted@, final(codegen).emitted@, name@)),
    {
        match self.inner {
            AttributeAction::PrintTest => codegen.printf_literal("TEST ATTRIBUTE HAS BEEN CALLED"),
            AttributeAction::MarkInline => {
                match stmt {
                    Stmt::FnDecl { name, .. } => {
                        codegen.inline_fns.push(name.clone());
                        match get_function(&codegen.module, name.as_str()) {
                            Some(f) => {
                                proof {
                                    codegen.emitted@ = codegen.emitted@.push(Emitted::FunctionAttribute {
                                        function: name@, attribute: "alwaysinline"@ });
                                }
                                let kind = enum_kind_id("alwaysinline");
                                add_function_attribute(codegen.context, f, kind);
                            },
                            None => {},
                        }
                    },
                    _ => {},
                }
                Ok(())
            },
        }
    }
}

/// The name an attribute is called by; the test attribute has none.
pub open spec fn attr_name(a: Attribute) -> Option<Seq<char>> {
    match a {
        Attribute::Simple(name) => Some(name@),
        Attribute::WithArgs { name, .. } => Some(name@),
        Attribute::Test => None,
    }
}

/// Whether an attribute's name has a handler.
pub open spec fn handled(a: Attribute, handlers: Map<Seq<char>, AttributeHandler>) -> bool {
    attr_name(a) is Some && handlers.contains_key(attr_name(a).unwrap())
}

/// Whether every attribute that has a handler has one that marks for inlining.
pub open spec fn inline_only(attrs: Seq<Attribute>, handlers: Map<Seq<char>, AttributeHandler>) -> bool {
    forall|i: int| 0 <= i < attrs.len() && handled(#[trigger] attrs[i], handlers)
        ==> handlers[attr_name(attrs[i]).unwrap()].action() == AttributeAction::MarkInline
}

/// How many of the attributes have a handler.
pub open spec fn handled_count(attrs: Seq<Attribute>, handlers: Map<Seq<char>, AttributeHandler>) -> nat
    decreases attrs.len(),
{
    if attrs.len() == 0 {
        0
    } else {
        handled_count(attrs.drop_last(), handlers) + if handled(attrs.last(), handlers) { 1nat } else { 0nat }
    }
}

/// Whether `after` is `before` with records added that are all the `alwaysinline`
/// attribute given to the function `name`.
pub open spec fn inlined_records(before: Seq<Emitted>, after: Seq<Emitted>, name: Seq<char>) -> bool {
    &&& before.len() <= after.len()
    &&& forall|j: int| 0 <= j < before.len() ==> #[trigger] after[j] == before[j]
    &&& forall|j: int| before.len() <= j < after.len() ==>
        #[trigger] after[j] == (Emitted::FunctionAttribute { function: name, attribute: "alwaysinline"@ })
}

/// Whether `after` is `before` with the name `name` added some number of times.
pub open spec fn marked_inline(before: Seq<String>, after: Seq<String>, name: String) -> bool {
    &&& before.len() <= after.len()
    &&& forall|j: int| 0 <= j < before.len() ==> #[trigger] after[j] == before[j]
    &&& forall|j: int| before.len() <= j < after.len() ==> #[trigger] after[j] == name
}

/// The handlers of attributes, by attribute name.
pub struct AttributeRegistry {
    pub handlers: Table<AttributeHandler>,
}

impl AttributeRegistry {
    /// A registry with no handlers.
    pub fn new() -> (res: Self)
        ensures
            res.handlers@.is_empty(),
    {
        AttributeRegistry { handlers: Table::new() }
    }

    /// Makes `handler` the handler of the attribute `name`.
    pub fn register(&mut self, name: &str, handler: AttributeHandler)
        ensures
            final(self).handlers@ == old(self).handlers@.insert(name@, handler),
    {
        self.handlers.insert(String::from_str(name), handler);
    }

    /// Registers the built-in handlers: `test` prints a line, `inline` marks the
    /// function it stands on to be inlined.
    pub fn register_all(&mut self)
        ensures
            final(self).handlers@ == old(self).handlers@
                .insert("test"@, AttributeHandler::new_spec(AttributeAction::PrintTest))
                .insert("inline"@, AttributeHandler::new_spec(AttributeAction::MarkInline)),
    {
        self.register("test", AttributeHandler::new(AttributeAction::PrintTest));
        self.register("inline", AttributeHandler::new(AttributeAction::MarkInline));
    }

    /// Runs, for each attribute with a name that has a handler, that handler on `stmt`.
    pub fn _load_attributes(&self, attributes: &Vec<Attribute>, stmt: &Stmt, codegen: &mut CodeGen)
        -> (res: Result<(), String>)
        ensures
            final(codegen).keeps(old(codegen)),
            final(codegen).variables@ == old(codegen).variables@,
            final(codegen).functions@ == old(codegen).functions@,
            final(codegen).loop_exit_stack@ == old(codegen).loop_exit_stack@,
            final(codegen).attr_registry.handlers@ == old(codegen).attr_registry.handlers@,
            inline_only(attributes@, self.handlers@) ==> res is Ok,
            attributes@.len() == 0 ==> *final(codegen) == *old(codegen),
            inline_only(attributes@, self.handlers@) && *stmt is FnDecl ==> final(codegen).inline_fns@.len()
                == old(codegen).inline_fns@.len() + handled_count(attributes@, self.handlers@),
            inline_only(attributes@, self.handlers@) ==> (*stmt matches Stmt::FnDecl { name, .. } ==>
                marked_inline(old(codegen).inline_fns@, final(codegen).inline_fns@, name)
                && inlined_records(old(codegen).emitted@, final(codegen).emitted@, name@)),
    {
        let mut i: usize = 0;
        while i < attributes.len()
            invariant
                i <= attributes@.len(),
                codegen.keeps(old(codegen)),
                i == 0 ==> *codegen == *old(codegen),
                codegen.variables@ == old(codegen).variables@,
                codegen.functions@ == old(codegen).functions@,
                codegen.loop_exit_stack@ == old(codegen).loop_exit_stack@,
                codegen.attr_registry.handlers@ == old(codegen).attr_registry.handlers@,
                inline_only(attributes@, self.handlers@) && *stmt is FnDecl ==> codegen.inline_fns@.len()
                    == old(codegen).inline_fns@.len() + handled_count(attributes@.take(i as int), self.handlers@),
                inline_only(attributes@, self.handlers@) ==> (*stmt matches Stmt::FnDecl { name, .. } ==>
                    marked_inline(old(codegen).inline_fns@, codegen.inline_fns@, name)
                    && inlined_records(old(codegen).emitted@, codegen.emitted@, name@)),
            decreases attributes@.len() - i,
        {
            proof {
                assert(attributes@.take(i + 1).drop_last() =~= attributes@.take(i as int));
                assert(attributes@.take(i + 1).last() == attributes@[i as int]);
            }
            match &attributes[i] {
                Attribute::Simple(name) => {
                    match self.handlers.get(name) {
                        Some(h) => {
                            h.call(name, stmt, codegen)?;
                        },
                        None => {},
                    }
                },
                Attribute::WithArgs { name, .. } => {
                    match self.handlers.get(name) {
                        Some(h) => {
                            h.call(name, stmt, codegen)?;
                        },
                        None => {},
                    }
                },
                _ => {},
            }
            i = i + 1;
        }
        assert(attributes@.take(attributes@.len() as int) =~= attributes@);
        Ok(())
    }
}

impl AttributeHandler {
    pub closed spec fn new_spec(action: AttributeAction) -> AttributeHandler {
        AttributeHandler { inner: action }
    }
}

impl<'ctx> CodeGen<'ctx> {
    /// Runs the registered handlers of the attributes on `stmt`.
    pub fn load_attributes(&mut self, attributes: &Vec<Attribute>, stmt: &Stmt) -> (res: Result<(), String>)
        ensures
            final(self).keeps(old(self)),
            final(self).variables@ == old(self).variables@,
            final(self).functions@ == old(self).functions@,
            final(self).loop_exit_stack@ == old(self).loop_exit_stack@,
            final(self).attr_registry.handlers@ == old(self).attr_registry.handlers@,
            inline_only(attributes@, old(self).attr_registry.handlers@) ==> res is Ok,
            attributes@.len() == 0 ==> *final(self) == *old(self),
            inline_only(attributes@, old(self).attr_registry.handlers@) && *stmt is FnDecl ==> final(self).inline_fns@.len()
                == old(self).inline_fns@.len() + handled_count(attributes@, old(self).attr_registry.handlers@),
            inline_only(attributes@, old(self).attr_registry.handlers@) ==> (*stmt matches Stmt::FnDecl { name, .. } ==>
                marked_inline(old(self).inline_fns@, final(self).inline_fns@, name)
                && inlined_records(old(self).emitted@, final(self).emitted@, name@)),
    {
        let mut registry = AttributeRegistry::new();
        std::mem::swap(&mut registry, &mut self.attr_registry);
        let res = registry._load_attributes(attributes, stmt, self);
        std::mem::swap(&mut registry, &mut self.attr_registry);
        res
    }
}

} // verus!
