//! Blocks by their identifiers: a namespace, a colon, and the block's own
//! name.
use crate::text::{
    chars_of, first_occurrence, lemma_first_occurrence, lemma_no_occurrence, occurs_at,
    smol_from_chars, smol_text, str_eq,
};
use smol_str::SmolStr;
use vstd::prelude::*;
use vstd::string::StrSliceExecFns;

verus! {

/// The namespace of an identifier.
#[derive(Debug, Clone, Copy, Default, PartialEq, Eq, PartialOrd, Ord, Hash)]
pub enum Namespace<'a> {
    #[default]
    Minecraft,
    Other(&'a str),
}

impl Namespace<'_> {
    /// The namespace as it is written.
    pub open spec fn name(self) -> Seq<char> {
        match self {
            Namespace::Minecraft => "minecraft"@,
            Namespace::Other(ns) => ns@,
        }
    }

    /// The namespace as it is written.
    pub fn as_ref(&self) -> (name: &str)
        ensures
            name@ == self.name(),
    {
        match self {
            Namespace::Minecraft => "minecraft",
            Namespace::Other(ns) => ns,
        }
    }
}

impl<'a> Namespace<'a> {
    /// The namespace that is written `ns`.
    pub fn from(ns: &'a str) -> (namespace: Namespace<'a>)
        ensures
            namespace == (if ns@ == "minecraft"@ {
                Namespace::Minecraft
            } else {
                Namespace::Other(ns)
            }),
            namespace.name() == ns@,
    {
        if str_eq(ns, "minecraft") {
            Namespace::Minecraft
        } else {
            Namespace::Other(ns)
        }
    }
}

/// The colon that ends the namespace.
pub open spec fn colon() -> Seq<char> {
    seq![':']
}

/// The namespace of `identifier`: what stands before its first colon, or
/// `minecraft` where it has none.
pub open spec fn namespace_of(identifier: Seq<char>) -> Seq<char> {
    match first_occurrence(identifier, colon()) {
        Some(i) => identifier.subrange(0, i),
        None => "minecraft"@,
    }
}

/// The name of `identifier` within its namespace: what stands behind its
/// first colon, or all of it where it has none.
pub open spec fn local_name(identifier: Seq<char>) -> Seq<char> {
    match first_occurrence(identifier, colon()) {
        Some(i) => identifier.subrange(i + 1, identifier.len() as int),
        None => identifier,
    }
}

/// Whether `name` is `air`, in capitals or not.
pub open spec fn names_air(name: Seq<char>) -> bool {
    &&& name.len() == 3
    &&& (name[0] == 'a' || name[0] == 'A')
    &&& (name[1] == 'i' || name[1] == 'I')
    &&& (name[2] == 'r' || name[2] == 'R')
}

/// Whether `name` begins with `prefix`.
pub open spec fn begins_with(name: Seq<char>, prefix: Seq<char>) -> bool {
    prefix.len() <= name.len() && name.subrange(0, prefix.len() as int) == prefix
}

/// Whether light passes through the block of the namespace `minecraft`
/// that has the name `name`.
pub open spec fn passes_light(name: Seq<char>) -> bool {
    ||| name == "AIR"@
    ||| name == "torch"@
    ||| name == "wall_torch"@
    ||| name == "rail"@
    ||| name == "powered_rail"@
    ||| name == "lever"@
    ||| name == "ladder"@
    ||| name == "glass"@
    ||| name == "repeater"@
    ||| name == "iron_bars"@
    ||| name == "redstone_wire"@
    ||| name == "end_rod"@
    ||| begins_with(name, "potted_"@)
}

/// Whether light passes through the block `identifier`, as far as its
/// name tells.
pub open spec fn transparent_by_name(identifier: Seq<char>) -> bool {
    namespace_of(identifier) == "minecraft"@ && passes_light(local_name(identifier))
}

/// The index of the first colon of `id`.
fn find_colon(id: &str) -> (found: Option<usize>)
    ensures
        match found {
            Some(i) => i < id@.len() && first_occurrence(id@, colon()) == Some(i as int),
            None => first_occurrence(id@, colon()) is None,
        },
{
    let n = id.unicode_len();
    let mut i: usize = 0;
    let mut found: Option<usize> = None;
    for c in it: id.chars()
        invariant
            it.seq() == id@,
            n == id@.len(),
            found is None ==> i == it.index() && forall|j: int| 0 <= j < i ==> id@[j] != ':',
            found matches Some(k) ==> k < n && id@[k as int] == ':' && forall|j: int|
                0 <= j < k ==> id@[j] != ':',
    {
        if found.is_none() {
            if c == ':' {
                found = Some(i);
            } else {
                i = i + 1;
            }
        }
    }
    proof {
        match found {
            Some(k) => {
                assert(id@.subrange(k as int, k + 1) =~= colon());
                assert forall|j: int| 0 <= j < k implies !occurs_at(id@, colon(), j) by {
                    if occurs_at(id@, colon(), j) {
                        assert(id@.subrange(j, j + 1)[0] == ':');
                    }
                }
                lemma_first_occurrence(id@, colon(), k as int);
            },
            None => {
                assert forall|j: int| 0 <= j implies !occurs_at(id@, colon(), j) by {
                    if occurs_at(id@, colon(), j) {
                        assert(id@.subrange(j, j + 1)[0] == ':');
                    }
                }
                lemma_no_occurrence(id@, colon());
            },
        }
    }
    found
}

/// The namespace of `id` as it is written, if it is written, and the name
/// of `id` within its namespace.
fn split_identifier(id: &str) -> (parts: (Option<&str>, &str))
    ensures
        match parts.0 {
            Some(ns) => first_occurrence(id@, colon()) is Some && ns@ == namespace_of(id@),
            None => first_occurrence(id@, colon()) is None,
        },
        parts.1@ == local_name(id@),
{
    match find_colon(id) {
        Some(i) => {
            let n = id.unicode_len();
            (Some(id.substring_char(0, i)), id.substring_char(i + 1, n))
        },
        None => (None, id),
    }
}

/// Whether `name` is `air`, in capitals or not.
fn is_air_name(name: &str) -> (air: bool)
    ensures
        air == names_air(name@),
{
    if name.unicode_len() != 3 {
        return false;
    }
    let a = name.get_char(0);
    let i = name.get_char(1);
    let r = name.get_char(2);
    (a == 'a' || a == 'A') && (i == 'i' || i == 'I') && (r == 'r' || r == 'R')
}

/// Whether light passes through the block of the namespace `minecraft`
/// that has the name `name`.
fn passes_light_name(name: &str) -> (passes: bool)
    ensures
        passes == passes_light(name@),
{
    if str_eq(name, "AIR") || str_eq(name, "torch") || str_eq(name, "wall_torch") || str_eq(
        name,
        "rail",
    ) || str_eq(name, "powered_rail") || str_eq(name, "lever") || str_eq(name, "ladder") || str_eq(
        name,
        "glass",
    ) || str_eq(name, "repeater") || str_eq(name, "iron_bars") || str_eq(name, "redstone_wire")
        || str_eq(name, "end_rod") {
        return true;
    }
    proof {
        reveal_strlit("potted_");
    }
    if name.unicode_len() < 7 {
        return false;
    }
    str_eq(name.substring_char(0, 7), "potted_")
}

/// Whether light passes through the block `id`, as far as its name tells.
fn is_transparent_name(id: &str) -> (transparent: bool)
    ensures
        transparent == transparent_by_name(id@),
{
    let (namespace, name) = split_identifier(id);
    let minecraft = match namespace {
        Some(ns) => str_eq(ns, "minecraft"),
        None => true,
    };
    minecraft && passes_light_name(name)
}

/// What a block is known by.
pub trait Block {
    /// The block's full identifier.
    spec fn identifier(&self) -> Seq<char>;

    /// The block's full identifier, namespace included.
    fn full_identifier(&self) -> (id: &str)
        ensures
            id@ == self.identifier(),
    ;

    /// The block's namespace.
    fn namespace(&self) -> (namespace: Namespace<'_>)
        ensures
            namespace.name() == namespace_of(self.identifier()),
            namespace is Minecraft <==> namespace_of(self.identifier()) == "minecraft"@,
    {
        match split_identifier(self.full_identifier()).0 {
            Some(ns) => Namespace::from(ns),
            None => Namespace::Minecraft,
        }
    }

    /// The block's name within its namespace.
    fn id(&self) -> (id: &str)
        ensures
            id@ == local_name(self.identifier()),
    {
        split_identifier(self.full_identifier()).1
    }

    /// The block's namespace, and its name within it.
    fn namespace_id(&self) -> (parts: (Namespace<'_>, &str))
        ensures
            parts.0.name() == namespace_of(self.identifier()),
            parts.0 is Minecraft <==> namespace_of(self.identifier()) == "minecraft"@,
            parts.1@ == local_name(self.identifier()),
    {
        let (namespace, name) = split_identifier(self.full_identifier());
        match namespace {
            Some(ns) => (Namespace::from(ns), name),
            None => (Namespace::Minecraft, name),
        }
    }

    /// Whether the block is air.
    fn is_air(&self) -> (air: bool)
        default_ensures
            air == names_air(local_name(self.identifier())),
    {
        is_air_name(split_identifier(self.full_identifier()).1)
    }

    /// Whether light passes through the block.
    fn is_transparent(&self) -> (transparent: bool)
        default_ensures
            transparent == transparent_by_name(self.identifier()),
    {
        is_transparent_name(self.full_identifier())
    }

    /// The value that the block's state gives to `state`.
    fn get_state(&self, state: &str) -> (value: Option<&str>)
        default_ensures
            value is None,
    {
        None
    }
}

/// Whether light passes through `block`, as far as its name tells.
pub fn default_is_transparent<B: Block + ?Sized>(block: &B) -> (transparent: bool)
    ensures
        transparent == transparent_by_name(block.identifier()),
{
    is_transparent_name(block.full_identifier())
}

impl Block for &str {
    open spec fn identifier(&self) -> Seq<char> {
        self@
    }

    fn full_identifier(&self) -> (id: &str) {
        self
    }
}

impl Block for String {
    open spec fn identifier(&self) -> Seq<char> {
        self@
    }

    fn full_identifier(&self) -> (id: &str) {
        self.as_str()
    }
}

impl<B: Block + ?Sized> Block for Box<B> {
    open spec fn identifier(&self) -> Seq<char> {
        (**self).identifier()
    }

    fn full_identifier(&self) -> (id: &str) {
        (**self).full_identifier()
    }

    fn namespace(&self) -> (namespace: Namespace<'_>) {
        (**self).namespace()
    }

    fn id(&self) -> (id: &str) {
        (**self).id()
    }

    fn namespace_id(&self) -> (parts: (Namespace<'_>, &str)) {
        (**self).namespace_id()
    }

    fn is_air(&self) -> (air: bool)
        ensures
            call_ensures(B::is_air, (&**self,), air),
    {
        (**self).is_air()
    }

    fn is_transparent(&self) -> (transparent: bool)
        ensures
            call_ensures(B::is_transparent, (&**self,), transparent),
    {
        (**self).is_transparent()
    }

    fn get_state(&self, state: &str) -> (value: Option<&str>)
        ensures
            call_ensures(B::get_state, (&**self, state), value),
    {
        (**self).get_state(state)
    }
}

/// A block with what is asked of it most often worked out once.
#[derive(Debug)]
pub struct CachedBlock<B: Block> {
    inner: B,
    namespace: SmolStr,
    id: SmolStr,
    is_air: bool,
    is_transparent: bool,
}

impl<B: Block> CachedBlock<B> {
    #[verifier::type_invariant]
    spec fn cached(self) -> bool {
        &&& smol_text(self.namespace) == namespace_of(self.inner.identifier())
        &&& smol_text(self.id) == local_name(self.inner.identifier())
    }

    /// The block that is kept.
    pub closed spec fn inner(self) -> B {
        self.inner
    }

    /// What the block said of being air when it was taken up.
    pub closed spec fn air(self) -> bool {
        self.is_air
    }

    /// What the block said of letting light pass when it was taken up.
    pub closed spec fn transparent(self) -> bool {
        self.is_transparent
    }

    /// The same block as `block`, its namespace, its name and what it says
    /// of air and light worked out now.
    pub fn new(block: B) -> (cached: Self)
        ensures
            cached.inner() == block,
            call_ensures(B::is_air, (&block,), cached.air()),
            call_ensures(B::is_transparent, (&block,), cached.transparent()),
    {
        let namespace = chars_of(block.namespace().as_ref());
        let id = chars_of(block.id());
        let is_air = block.is_air();
        let is_transparent = block.is_transparent();
        CachedBlock {
            namespace: smol_from_chars(namespace.as_slice()),
            id: smol_from_chars(id.as_slice()),
            is_air,
            is_transparent,
            inner: block,
        }
    }
}

impl<B: Block> Block for CachedBlock<B> {
    open spec fn identifier(&self) -> Seq<char> {
        self.inner().identifier()
    }

    fn full_identifier(&self) -> (id: &str) {
        self.inner.full_identifier()
    }

    fn namespace(&self) -> (namespace: Namespace<'_>) {
        proof {
            use_type_invariant(self);
        }
        Namespace::from(self.namespace.as_str())
    }

    fn id(&self) -> (id: &str) {
        proof {
            use_type_invariant(self);
        }
        self.id.as_str()
    }

    fn namespace_id(&self) -> (parts: (Namespace<'_>, &str)) {
        proof {
            use_type_invariant(self);
        }
        (Namespace::from(self.namespace.as_str()), self.id.as_str())
    }

    fn is_air(&self) -> (air: bool)
        ensures
            air == self.air(),
    {
        self.is_air
    }

    fn is_transparent(&self) -> (transparent: bool)
        ensures
            transparent == self.transparent(),
    {
        self.is_transparent
    }

    fn get_state(&self, state: &str) -> (value: Option<&str>)
        ensures
            call_ensures(B::get_state, (&self.inner(), state), value),
    {
        self.inner.get_state(state)
    }
}

impl Block for SmolStr {
    open spec fn identifier(&self) -> Seq<char> {
        smol_text(*self)
    }

    fn full_identifier(&self) -> (id: &str) {
        self.as_str()
    }
}

} // verus!
