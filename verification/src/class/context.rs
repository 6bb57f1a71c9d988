//! The class registry: every loaded class, found by its name.

use super::attribute_info::{AttributeInfo, Code};
use super::method::MethodInfo;
use super::model::{first_matching, Class};
use super::native;
use crate::error::MistError;
use crate::text::same_text;
use vstd::prelude::*;

verus! {

/// The classes that the machine knows, each under its binary name, such as
/// `java/lang/Math`. A name is registered once.
#[derive(Debug)]
pub struct Context {
    classes: Vec<Class>,
}

/// The index of the first of `classes` from `from` on that is called `name`,
/// if there is one.
pub open spec fn class_index(classes: Seq<Class>, name: Seq<char>, from: int) -> Option<int>
    decreases classes.len() - from,
{
    if from < 0 || from >= classes.len() {
        None
    } else if classes[from].this_class@ == name {
        Some(from)
    } else {
        class_index(classes, name, from + 1)
    }
}

/// Whether no two of `classes` have one name.
pub open spec fn distinct_names(classes: Seq<Class>) -> bool {
    forall|i: int, j: int|
        0 <= i < j < classes.len() ==> classes[i].this_class@ != classes[j].this_class@
}

/// What [`class_index`] finds is called `name`, and no class before it is;
/// it finds nothing exactly if no class is called `name`.
pub proof fn lemma_class_index(classes: Seq<Class>, name: Seq<char>, from: int)
    requires
        0 <= from,
    ensures
        class_index(classes, name, from) matches Some(i) ==> from <= i < classes.len()
            && classes[i].this_class@ == name && forall|k: int|
            from <= k < i ==> classes[k].this_class@ != name,
        class_index(classes, name, from) is None ==> forall|k: int|
            from <= k < classes.len() ==> classes[k].this_class@ != name,
    decreases classes.len() - from,
{
    if from < classes.len() && classes[from].this_class@ != name {
        lemma_class_index(classes, name, from + 1);
    }
}

/// Whether `class` is a built-in: called `name`, with the one method
/// `method_name` of descriptor `descriptor`, whose body is the host's callable
/// number `id` and sees `max_local` slots.
pub open spec fn is_builtin(
    class: Class,
    name: Seq<char>,
    method_name: Seq<char>,
    descriptor: Seq<char>,
    id: usize,
    max_local: u16,
) -> bool {
    &&& class.this_class@ == name
    &&& class.constant_pool@.len() == 0
    &&& class.fields@.len() == 0
    &&& class.methods@.len() == 1
    &&& class.methods@[0].name@ == method_name
    &&& class.methods@[0].descriptor@ == descriptor
    &&& class.methods@[0].access_flags == 0
    &&& class.methods@[0].attributes@.len() == 1
    &&& class.methods@[0].attributes@[0] is Code
    &&& class.methods@[0].attributes@[0]->Code_0.native == Some(id)
    &&& class.methods@[0].attributes@[0]->Code_0.max_local == max_local
    &&& class.methods@[0].attributes@[0]->Code_0.max_stack == 0
    &&& class.methods@[0].attributes@[0]->Code_0.code@.len() == 0
}

fn builtin(name: &str, method_name: &str, descriptor: &str, id: usize, max_local: u16) -> (class:
    Class)
    ensures
        is_builtin(class, name@, method_name@, descriptor@, id, max_local),
{
    let mut class = Class::empty();
    let mut attributes: Vec<AttributeInfo> = Vec::new();
    attributes.push(AttributeInfo::Code(Code::native(id, max_local)));
    let mut methods: Vec<MethodInfo> = Vec::new();
    methods.push(
        MethodInfo {
            access_flags: 0,
            name: method_name.to_owned(),
            descriptor: descriptor.to_owned(),
            attributes,
        },
    );
    class.this_class = name.to_owned();
    class.methods = methods;
    class
}

impl Context {
    /// The registered classes, in the order of their registration.
    pub closed spec fn classes(&self) -> Seq<Class> {
        self.classes@
    }

    /// A registry that holds the built-in native classes and nothing else:
    /// `java/lang/System` with `currentTimeMillis()J`, and `java/lang/Math`
    /// with `sqrt(D)D`.
    pub fn new() -> (context: Context)
        ensures
            context.classes().len() == 2,
            is_builtin(
                context.classes()[0],
                "java/lang/System"@,
                "currentTimeMillis"@,
                "()J"@,
                native::CURRENT_TIME_MILLIS,
                0,
            ),
            is_builtin(
                context.classes()[1],
                "java/lang/Math"@,
                "sqrt"@,
                "(D)D"@,
                native::SQRT,
                1,
            ),
            distinct_names(context.classes()),
    {
        let system = builtin(
            "java/lang/System",
            "currentTimeMillis",
            "()J",
            native::CURRENT_TIME_MILLIS,
            0,
        );
        let math = builtin("java/lang/Math", "sqrt", "(D)D", native::SQRT, 1);
        proof {
            reveal_strlit("java/lang/System");
            reveal_strlit("java/lang/Math");
            assert("java/lang/System"@[10] != "java/lang/Math"@[10]);
        }
        let mut classes: Vec<Class> = Vec::new();
        classes.push(system);
        classes.push(math);
        Context { classes }
    }

    /// The number of registered classes.
    pub fn len(&self) -> (n: usize)
        ensures
            n == self.classes().len(),
    {
        self.classes.len()
    }

    /// The class registered under `class_name`, if there is one.
    pub fn lookup_class(&self, class_name: &str) -> (r: Option<&Class>)
        ensures
            match class_index(self.classes(), class_name@, 0) {
                Some(i) => r == Some(&self.classes()[i]),
                None => r is None,
            },
    {
        let mut i: usize = 0;
        while i < self.classes.len()
            invariant
                i <= self.classes@.len(),
                class_index(self.classes@, class_name@, 0) == class_index(
                    self.classes@,
                    class_name@,
                    i as int,
                ),
            decreases self.classes@.len() - i,
        {
            if same_text(self.classes[i].this_class.as_str(), class_name) {
                return Some(&self.classes[i]);
            }
            i += 1;
        }
        None
    }

    /// Registers `class` under its own name; `DuplicateClass` if a class of
    /// that name is registered already, and then nothing changes.
    pub fn add_class(&mut self, class: Class) -> (r: Result<(), MistError>)
        ensures
            match class_index(old(self).classes(), class.this_class@, 0) {
                Some(_) => r == Err::<(), MistError>(MistError::DuplicateClass)
                    && final(self).classes() == old(self).classes(),
                None => r is Ok && final(self).classes() == old(self).classes().push(class),
            },
            distinct_names(old(self).classes()) ==> distinct_names(final(self).classes()),
    {
        proof {
            lemma_class_index(self.classes@, class.this_class@, 0);
        }
        if self.lookup_class(class.this_class.as_str()).is_some() {
            return Err(MistError::DuplicateClass);
        }
        self.classes.push(class);
        Ok(())
    }

    /// The method `method_name` with the descriptor `descriptor` of the class
    /// registered under `class_name`: the first whose name and descriptor are
    /// exactly those. `None` if there is no such class or no such method.
    pub fn lookup_method(&self, class_name: &str, method_name: &str, descriptor: &str) -> (r:
        Option<&MethodInfo>)
        ensures
            match class_index(self.classes(), class_name@, 0) {
                Some(i) => match first_matching(
                    self.classes()[i].methods@,
                    method_name@,
                    descriptor@,
                    0,
                ) {
                    Some(k) => r == Some(&self.classes()[i].methods@[k]),
                    None => r is None,
                },
                None => r is None,
            },
    {
        match self.lookup_class(class_name) {
            Some(class) => class.lookup_method_with_descriptor(method_name, descriptor),
            None => None,
        }
    }
}

/// A name is registered once: after a class has been added, a second class of
/// the same name is refused, and the registry finds the first.
pub proof fn lemma_write_once(classes: Seq<Class>, class: Class, again: Class)
    requires
        class_index(classes, class.this_class@, 0) is None,
        again.this_class@ == class.this_class@,
    ensures
        class_index(classes.push(class), again.this_class@, 0) == Some(classes.len() as int),
        classes.push(class)[classes.len() as int] == class,
{
    let name = class.this_class@;
    let grown = classes.push(class);
    lemma_class_index(classes, name, 0);
    lemma_class_index(grown, name, 0);
    assert(grown[classes.len() as int].this_class@ == name);
    match class_index(grown, name, 0) {
        Some(i) => {
            if i < classes.len() {
                assert(grown[i] == classes[i]);
            }
        },
        None => {},
    }
}

} // verus!
