//! Declarations of the entry points a deployed component offers.

use vstd::prelude::*;

verus! {

/// The type of a value that crosses an entry point.
#[derive(Clone, Copy, Debug, PartialEq, Eq, Structural)]
pub enum ValueType {
    Unit,
    Token,
    PublicKey,
    TokenList,
    PublicKeyList,
}

/// Where an entry point's code runs.
#[derive(Clone, Copy, Debug, PartialEq, Eq, Structural)]
pub enum EntryKind {
    /// In the caller's own context.
    Session,
    /// In the context of the component that offers it.
    Contract,
}

/// Who may call an entry point.
#[derive(Clone, Debug)]
pub enum Access {
    /// Anyone.
    Public,
    /// Only callers whose context holds a token of one of these groups.
    Groups(Vec<String>),
}

/// A named, typed parameter of an entry point.
#[derive(Clone, Debug)]
pub struct ParameterDecl {
    pub name: String,
    pub value_type: ValueType,
}

/// One entry point: its name, parameters in order, result type, access
/// rule and kind.
#[derive(Clone, Debug)]
pub struct EntryPointDecl {
    pub name: String,
    pub params: Vec<ParameterDecl>,
    pub ret: ValueType,
    pub access: Access,
    pub kind: EntryKind,
}

pub enum AccessView {
    Public,
    Groups(Seq<Seq<char>>),
}

pub struct ParameterView {
    pub name: Seq<char>,
    pub value_type: ValueType,
}

pub struct EntryPointView {
    pub name: Seq<char>,
    pub params: Seq<ParameterView>,
    pub ret: ValueType,
    pub access: AccessView,
    pub kind: EntryKind,
}

impl View for Access {
    type V = AccessView;

    open spec fn view(&self) -> AccessView {
        match self {
            Access::Public => AccessView::Public,
            Access::Groups(labels) => AccessView::Groups(labels@.map_values(|s: String| s@)),
        }
    }
}

impl View for ParameterDecl {
    type V = ParameterView;

    open spec fn view(&self) -> ParameterView {
        ParameterView { name: self.name@, value_type: self.value_type }
    }
}

impl View for EntryPointDecl {
    type V = EntryPointView;

    open spec fn view(&self) -> EntryPointView {
        EntryPointView {
            name: self.name@,
            params: self.params@.map_values(|p: ParameterDecl| p@),
            ret: self.ret,
            access: self.access@,
            kind: self.kind,
        }
    }
}

/// The views of a list of entry points, in order.
pub open spec fn views(decls: Seq<EntryPointDecl>) -> Seq<EntryPointView> {
    decls.map_values(|d: EntryPointDecl| d@)
}

/// Whether no two entry points of the list share a name.
pub open spec fn names_distinct(table: Seq<EntryPointView>) -> bool {
    forall|i: int, j: int|
        0 <= i < j < table.len() ==> (#[trigger] table[i]).name != (#[trigger] table[j]).name
}

/// The access rule that admits only holders of a token of one group.
pub open spec fn group_only(label: Seq<char>) -> AccessView {
    AccessView::Groups(seq![label])
}

impl Access {
    /// Access for holders of a token of the one named group.
    pub fn group(label: &str) -> (a: Access)
        ensures
            a@ == group_only(label@),
    {
        let mut labels: Vec<String> = Vec::new();
        labels.push(String::from_str(label));
        let a = Access::Groups(labels);
        assert(labels@.map_values(|s: String| s@) =~= seq![label@]);
        a
    }

    /// Whether the rule admits every caller.
    pub fn is_public(&self) -> (b: bool)
        ensures
            b == (self@ == AccessView::Public),
    {
        match self {
            Access::Public => true,
            Access::Groups(_) => false,
        }
    }
}

impl ParameterDecl {
    /// A parameter of the given name and type.
    pub fn new(name: &str, value_type: ValueType) -> (p: ParameterDecl)
        ensures
            p@ == (ParameterView { name: name@, value_type }),
    {
        ParameterDecl { name: String::from_str(name), value_type }
    }
}

impl EntryPointDecl {
    /// An entry point of the given name, parameters, result type, access
    /// rule and kind.
    pub fn new(
        name: &str,
        params: Vec<ParameterDecl>,
        ret: ValueType,
        access: Access,
        kind: EntryKind,
    ) -> (e: EntryPointDecl)
        ensures
            e@ == (EntryPointView {
                name: name@,
                params: params@.map_values(|p: ParameterDecl| p@),
                ret,
                access: access@,
                kind,
            }),
    {
        EntryPointDecl { name: String::from_str(name), params, ret, access, kind }
    }
}

} // verus!
