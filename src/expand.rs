//! The expansion protocol: from the tokens that name a trait (with optional
//! generic parameters and `where` bounds) to the list of operator impls that
//! make `==` work on that trait's objects.
use vstd::prelude::*;

verus! {

/// One token of an invocation, as far as the protocol tells tokens apart.
#[derive(Debug, PartialEq, Eq)]
pub enum Token {
    /// `<`
    Open,
    /// `>`
    Close,
    /// the `where` keyword
    Where,
    /// any other token, kept as written
    Other(String),
}

impl Clone for Token {
    fn clone(&self) -> (r: Self)
        ensures
            r == *self,
    {
        match self {
            Token::Open => Token::Open,
            Token::Close => Token::Close,
            Token::Where => Token::Where,
            Token::Other(s) => Token::Other(s.clone()),
        }
    }
}

/// How a token moves the bracket depth.
pub open spec fn step(t: Token) -> int {
    match t {
        Token::Open => 1,
        Token::Close => -1,
        _ => 0,
    }
}

/// Opening minus closing brackets in `s`.
pub open spec fn depth(s: Seq<Token>) -> int
    decreases s.len(),
{
    if s.len() == 0 {
        0
    } else {
        depth(s.drop_last()) + step(s.last())
    }
}

/// `s[j]` is a `>` at which the brackets opened since `s[0]` are all closed.
pub open spec fn closes_generics(s: Seq<Token>, j: int) -> bool {
    &&& 1 <= j < s.len()
    &&& s[j] is Close
    &&& depth(s.subrange(1, j)) == 0
}

/// `s[j]` is the `>` that ends the generic list opened by `s[0]`.
pub open spec fn generics_end(s: Seq<Token>, j: int) -> bool {
    &&& closes_generics(s, j)
    &&& forall|k: int| 1 <= k < j ==> !#[trigger] closes_generics(s, k)
}

proof fn lemma_depth_push(s: Seq<Token>, lo: int, hi: int)
    requires
        0 <= lo <= hi < s.len(),
    ensures
        depth(s.subrange(lo, hi + 1)) == depth(s.subrange(lo, hi)) + step(s[hi]),
{
    assert(s.subrange(lo, hi + 1).drop_last() =~= s.subrange(lo, hi));
}

/// Index of the `>` that ends the generic list opened by `tokens[0]`.
fn find_generics_end(tokens: &Vec<Token>) -> (r: Option<usize>)
    requires
        tokens@.len() > 0,
        tokens@[0] is Open,
    ensures
        match r {
            Some(j) => generics_end(tokens@, j as int),
            None => forall|j: int| !#[trigger] closes_generics(tokens@, j),
        },
{
    let n = tokens.len();
    let mut level: usize = 0;
    let mut i: usize = 1;
    while i < n
        invariant
            1 <= i <= n,
            n == tokens@.len(),
            level <= i,
            level == depth(tokens@.subrange(1, i as int)),
            forall|k: int| 1 <= k < i ==> !#[trigger] closes_generics(tokens@, k),
        decreases n - i,
    {
        proof {
            lemma_depth_push(tokens@, 1, i as int);
        }
        match &tokens[i] {
            Token::Close => {
                if level == 0 {
                    return Some(i);
                }
                level = level - 1;
            },
            Token::Open => {
                level = level + 1;
            },
            _ => {},
        }
        i = i + 1;
    }
    None
}

/// The tokens `tokens[lo..hi]`, copied.
fn copy_range(tokens: &Vec<Token>, lo: usize, hi: usize) -> (r: Vec<Token>)
    requires
        lo <= hi <= tokens@.len(),
    ensures
        r@ == tokens@.subrange(lo as int, hi as int),
{
    let mut out: Vec<Token> = Vec::new();
    let mut i: usize = lo;
    while i < hi
        invariant
            lo <= i <= hi,
            hi <= tokens@.len(),
            out@ == tokens@.subrange(lo as int, i as int),
        decreases hi - i,
    {
        out.push(tokens[i].clone());
        proof {
            assert(out@ =~= tokens@.subrange(lo as int, i + 1));
        }
        i = i + 1;
    }
    out
}

/// `s[w]` is the first `where` in `s`.
pub open spec fn first_where(s: Seq<Token>, w: int) -> bool {
    &&& 0 <= w < s.len()
    &&& s[w] is Where
    &&& forall|k: int| 0 <= k < w ==> !(#[trigger] s[k] is Where)
}

/// Index of the first `where` in `tokens`.
fn find_where(tokens: &Vec<Token>) -> (r: Option<usize>)
    ensures
        match r {
            Some(w) => first_where(tokens@, w as int),
            None => forall|k: int| 0 <= k < tokens@.len() ==> !(#[trigger] tokens@[k] is Where),
        },
{
    let mut i: usize = 0;
    while i < tokens.len()
        invariant
            i <= tokens@.len(),
            forall|k: int| 0 <= k < i ==> !(#[trigger] tokens@[k] is Where),
        decreases tokens@.len() - i,
    {
        if let Token::Where = &tokens[i] {
            return Some(i);
        }
        i = i + 1;
    }
    None
}

/// An invocation split into its three parts.
#[derive(Debug)]
pub struct Invocation {
    /// The generic parameters, without the outer `<` and `>`.
    pub generics: Vec<Token>,
    /// The trait's path.
    pub path: Vec<Token>,
    /// The bounds after `where`, without the keyword.
    pub bounds: Vec<Token>,
}

/// Why an invocation cannot be expanded.
#[derive(Clone, Copy, Debug, PartialEq, Eq, Structural)]
pub enum ExpandError {
    /// A generic list opened by the first token is never closed.
    UnbalancedGenerics,
    /// No token names the trait.
    EmptyPath,
}

/// The generic list and what follows it: an empty list when `s` does not
/// start with `<`, nothing when that list is never closed.
pub open spec fn split_generics(s: Seq<Token>) -> Option<(Seq<Token>, Seq<Token>)> {
    if s.len() > 0 && s[0] is Open {
        if exists|j: int| generics_end(s, j) {
            let j = choose|j: int| generics_end(s, j);
            Some((s.subrange(1, j), s.subrange(j + 1, s.len() as int)))
        } else {
            None
        }
    } else {
        Some((Seq::empty(), s))
    }
}

/// The path and the bounds: what stands before the first `where`, and what
/// stands after it.
pub open spec fn split_where(s: Seq<Token>) -> (Seq<Token>, Seq<Token>) {
    if exists|w: int| first_where(s, w) {
        let w = choose|w: int| first_where(s, w);
        (s.subrange(0, w), s.subrange(w + 1, s.len() as int))
    } else {
        (s, Seq::empty())
    }
}

/// What an invocation of the given tokens is read as.
pub open spec fn parse_spec(s: Seq<Token>) -> Result<(Seq<Token>, Seq<Token>, Seq<Token>), ExpandError> {
    match split_generics(s) {
        None => Err(ExpandError::UnbalancedGenerics),
        Some((g, rest)) => {
            let (p, b) = split_where(rest);
            if p.len() == 0 {
                Err(ExpandError::EmptyPath)
            } else {
                Ok((g, p, b))
            }
        },
    }
}

/// Splits an invocation into generics, path and bounds.
pub fn parse_invocation(tokens: &Vec<Token>) -> (r: Result<Invocation, ExpandError>)
    ensures
        match parse_spec(tokens@) {
            Ok((g, p, b)) => r matches Ok(inv) && inv.generics@ == g && inv.path@ == p
                && inv.bounds@ == b,
            Err(e) => r == Err::<Invocation, ExpandError>(e),
        },
{
    let n = tokens.len();
    let mut generics: Vec<Token> = Vec::new();
    let mut start: usize = 0;
    if n > 0 && matches!(tokens[0], Token::Open) {
        match find_generics_end(tokens) {
            Some(j) => {
                proof {
                    let c = choose|c: int| generics_end(tokens@, c);
                    if c < j {
                        assert(closes_generics(tokens@, c));
                    } else if j < c {
                        assert(closes_generics(tokens@, j as int));
                    }
                }
                generics = copy_range(tokens, 1, j);
                start = j + 1;
            },
            None => {
                return Err(ExpandError::UnbalancedGenerics);
            },
        }
    }
    let rest = copy_range(tokens, start, n);
    assert(split_generics(tokens@) == Some((generics@, rest@)));
    let (path, bounds) = match find_where(&rest) {
        Some(w) => {
            proof {
                let c = choose|c: int| first_where(rest@, c);
                if c < w {
                    assert(rest@[c] is Where);
                } else if w < c {
                    assert(rest@[w as int] is Where);
                }
            }
            (copy_range(&rest, 0, w), copy_range(&rest, w + 1, rest.len()))
        },
        None => {
            assert(rest@.subrange(0, rest@.len() as int) =~= rest@);
            (copy_range(&rest, 0, rest.len()), Vec::new())
        },
    };
    if path.len() == 0 {
        return Err(ExpandError::EmptyPath);
    }
    Ok(Invocation { generics, path, bounds })
}

/// The thread-safety markers that a trait object may carry besides the trait.
#[derive(Clone, Copy, Debug, PartialEq, Eq, Structural)]
pub enum Markers {
    /// `dyn Trait`
    Plain,
    /// `dyn Trait + Send`
    Send,
    /// `dyn Trait + Sync`
    Sync,
    /// `dyn Trait + Send + Sync`
    SendSync,
}

/// The operator impls that an expansion emits.
#[derive(Clone, Copy, Debug, PartialEq, Eq, Structural)]
pub enum ImplKind {
    /// `PartialEq` on the trait object, through [`crate::DynEq`].
    HandleEq,
    /// `PartialEq<&Self>` on a `Box` of the trait object, which the blanket
    /// impls of `Box` do not give.
    BoxedEq,
    /// `Eq` on the trait object: the relation is total.
    Total,
}

/// One emitted impl: what it is, and for which markers.
#[derive(Clone, Copy, Debug, PartialEq, Eq, Structural)]
pub struct ImplItem {
    pub kind: ImplKind,
    pub markers: Markers,
}

/// The marker combinations, in the order in which each kind of impl is
/// emitted for them.
pub open spec fn marker_order() -> Seq<Markers> {
    seq![Markers::Plain, Markers::Send, Markers::Sync, Markers::SendSync]
}

/// The kinds of impl emitted, in order; the boxed one only with heap support.
pub open spec fn kind_order(with_box: bool) -> Seq<ImplKind> {
    if with_box {
        seq![ImplKind::HandleEq, ImplKind::BoxedEq, ImplKind::Total]
    } else {
        seq![ImplKind::HandleEq, ImplKind::Total]
    }
}

/// Every kind for every marker combination, kind by kind.
pub open spec fn impl_plan(with_box: bool) -> Seq<ImplItem> {
    Seq::new(
        4 * kind_order(with_box).len(),
        |i: int| ImplItem { kind: kind_order(with_box)[i / 4], markers: marker_order()[i % 4] },
    )
}

/// The impls that an expansion emits, whatever trait it is for.
pub fn plan_impls(with_box: bool) -> (r: Vec<ImplItem>)
    ensures
        r@ == impl_plan(with_box),
{
    let kinds: Vec<ImplKind> = if with_box {
        vec![ImplKind::HandleEq, ImplKind::BoxedEq, ImplKind::Total]
    } else {
        vec![ImplKind::HandleEq, ImplKind::Total]
    };
    let markers: Vec<Markers> = vec![Markers::Plain, Markers::Send, Markers::Sync, Markers::SendSync];
    assert(kinds@ =~= kind_order(with_box));
    assert(markers@ =~= marker_order());
    let total: usize = 4 * kinds.len();
    let mut items: Vec<ImplItem> = Vec::new();
    let mut i: usize = 0;
    while i < total
        invariant
            i <= total,
            total == 4 * kinds@.len(),
            kinds@ == kind_order(with_box),
            markers@ == marker_order(),
            items@ =~= impl_plan(with_box).take(i as int),
        decreases total - i,
    {
        assert(i / 4 < kinds@.len()) by (nonlinear_arith)
            requires i < total, total == 4 * kinds@.len();
        items.push(ImplItem { kind: kinds[i / 4], markers: markers[i % 4] });
        i = i + 1;
    }
    items
}

/// An invocation read, and the impls to emit for it.
#[derive(Debug)]
pub struct Expansion {
    pub invocation: Invocation,
    pub items: Vec<ImplItem>,
}

/// Reads an invocation and plans its impls; `with_box` adds the impls on
/// `Box` of the trait object.
pub fn expand(tokens: &Vec<Token>, with_box: bool) -> (r: Result<Expansion, ExpandError>)
    ensures
        match parse_spec(tokens@) {
            Ok((g, p, b)) => r matches Ok(x) && x.invocation.generics@ == g
                && x.invocation.path@ == p && x.invocation.bounds@ == b
                && x.items@ == impl_plan(with_box),
            Err(e) => r == Err::<Expansion, ExpandError>(e),
        },
{
    match parse_invocation(tokens) {
        Ok(invocation) => Ok(Expansion { invocation, items: plan_impls(with_box) }),
        Err(e) => Err(e),
    }
}

} // verus!
