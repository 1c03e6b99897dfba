use vstd::prelude::*;

verus! {

/// An expression or statement inside the body of an operation.
#[derive(Debug, PartialEq, Eq)]
pub enum Expr {
    /// A receiver-qualified call `receiver.method(args)`.
    MethodCall { receiver: Box<Expr>, method: String, args: Vec<Expr> },
    /// A bare call `func(operands)`, where `func` is most often a path such
    /// as `power_off` or `T::power_off`.
    Call { func: Box<Expr>, operands: Vec<Expr> },
    /// A path `qualifier::name`; `qualifier` is empty for a single name.
    Path { qualifier: Vec<String>, name: String },
    /// Any other construct (a block, a conditional, `.await`, `let`, a
    /// literal), labelled by `kind`, with its sub-expressions in order.
    Node { kind: String, children: Vec<Expr> },
}

/// One parameter of an operation: its name and its type, as written.
#[derive(Debug, PartialEq, Eq)]
pub struct Param {
    pub name: String,
    pub ty: String,
}

/// One declared operation of a capability interface.
#[derive(Debug, PartialEq, Eq)]
pub struct OperationDeclaration {
    /// Whether the operation is declared `async`.
    pub is_async: bool,
    pub name: String,
    pub params: Vec<Param>,
    /// The return type, as written.
    pub output: String,
    /// The statements of the default body, if the declaration has one.
    pub body: Option<Vec<Expr>>,
}

/// Two lists of names that read the same, element by element.
pub open spec fn same_names(a: Seq<String>, b: Seq<String>) -> bool {
    &&& a.len() == b.len()
    &&& forall|i: int| 0 <= i < a.len() ==> (#[trigger] a[i])@ == b[i]@
}

/// Two parameter lists that read the same, element by element.
pub open spec fn same_params(a: Seq<Param>, b: Seq<Param>) -> bool {
    &&& a.len() == b.len()
    &&& forall|i: int|
        0 <= i < a.len() ==> (#[trigger] a[i]).name@ == b[i].name@ && a[i].ty@ == b[i].ty@
}

/// Copies a list of names.
pub fn copy_names(v: &Vec<String>) -> (r: Vec<String>)
    ensures
        same_names(v@, r@),
{
    let mut r: Vec<String> = Vec::new();
    let mut i: usize = 0;
    while i < v.len()
        invariant
            i <= v.len(),
            r.len() == i,
            forall|j: int| 0 <= j < i ==> (#[trigger] v@[j])@ == r@[j]@,
        decreases v.len() - i,
    {
        r.push(v[i].clone());
        i = i + 1;
    }
    r
}

/// Copies a parameter list.
pub fn copy_params(v: &Vec<Param>) -> (r: Vec<Param>)
    ensures
        same_params(v@, r@),
{
    let mut r: Vec<Param> = Vec::new();
    let mut i: usize = 0;
    while i < v.len()
        invariant
            i <= v.len(),
            r.len() == i,
            forall|j: int|
                0 <= j < i ==> (#[trigger] v@[j]).name@ == r@[j].name@ && v@[j].ty@ == r@[j].ty@,
        decreases v.len() - i,
    {
        r.push(Param { name: v[i].name.clone(), ty: v[i].ty.clone() });
        i = i + 1;
    }
    r
}

} // verus!
