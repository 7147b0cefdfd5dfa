//! Identifiers of the four numeric resource spaces of the target: groups,
//! colors, blocks and items.
use vstd::prelude::*;

verus! {

/// A placeholder id, minted from a counter and resolved to a concrete id later.
pub type ArbitraryId = u16;

/// A concrete numeric id.
pub type SpecificId = u16;

#[derive(Debug, Copy, Clone, PartialEq, Eq, Structural, Hash, PartialOrd, Ord)]
pub enum Id {
    Specific(SpecificId),
    /// Given a specific id at the end of compilation.
    Arbitrary(ArbitraryId),
}

/// The id that the `next_free` constructors mint from a counter that stood at `counter`.
pub open spec fn minted_id(counter: ArbitraryId) -> Id {
    Id::Arbitrary((counter + 1) as u16)
}

/// The four resource kinds; each has its own id namespace.
#[derive(Debug, Copy, Clone, PartialEq, Eq, Structural)]
pub enum ResourceKind {
    Group,
    Color,
    Block,
    Item,
}

/// A resource as the target sees it: its kind and its id within that kind.
pub struct Resource {
    pub kind: ResourceKind,
    pub id: Id,
}

#[derive(Debug, Copy, Clone, PartialEq, Eq, Structural, Hash, PartialOrd, Ord)]
pub struct Group {
    pub id: Id,
}

#[derive(Debug, Copy, Clone, PartialEq, Eq, Structural, Hash)]
pub struct Color {
    pub id: Id,
}

#[derive(Debug, Copy, Clone, PartialEq, Eq, Structural, Hash)]
pub struct Block {
    pub id: Id,
}

#[derive(Debug, Copy, Clone, PartialEq, Eq, Structural, Hash)]
pub struct Item {
    pub id: Id,
}

impl Group {
    pub open spec fn resource(self) -> Resource {
        Resource { kind: ResourceKind::Group, id: self.id }
    }

    /// The group with the given concrete id.
    pub fn new(id: SpecificId) -> (r: Self)
        ensures
            r.id == Id::Specific(id),
    {
        Group { id: Id::Specific(id) }
    }

    /// Advances the counter and returns a group bound to the new placeholder id.
    pub fn next_free(counter: &mut ArbitraryId) -> (r: Self)
        requires
            *old(counter) < u16::MAX,
        ensures
            *final(counter) == *old(counter) + 1,
            r.id == minted_id(*old(counter)),
    {
        *counter = *counter + 1;
        Group { id: Id::Arbitrary(*counter) }
    }

    /// The text form of the group: `12g` for a concrete id, `12?g` for a placeholder.
    pub fn to_text(&self) -> (r: String)
        ensures
            r@ == group_text(self.id),
    {
        match self.id {
            Id::Specific(n) => id_text(n, false),
            Id::Arbitrary(n) => id_text(n, true),
        }
    }
}

impl Color {
    pub open spec fn resource(self) -> Resource {
        Resource { kind: ResourceKind::Color, id: self.id }
    }

    /// The color with the given concrete id.
    pub fn new(id: SpecificId) -> (r: Self)
        ensures
            r.id == Id::Specific(id),
    {
        Self { id: Id::Specific(id) }
    }

    /// Advances the counter and returns a color bound to the new placeholder id.
    pub fn next_free(counter: &mut ArbitraryId) -> (r: Self)
        requires
            *old(counter) < u16::MAX,
        ensures
            *final(counter) == *old(counter) + 1,
            r.id == minted_id(*old(counter)),
    {
        *counter = *counter + 1;
        Self { id: Id::Arbitrary(*counter) }
    }
}

impl Block {
    pub open spec fn resource(self) -> Resource {
        Resource { kind: ResourceKind::Block, id: self.id }
    }

    /// The block with the given concrete id.
    pub fn new(id: SpecificId) -> (r: Self)
        ensures
            r.id == Id::Specific(id),
    {
        Self { id: Id::Specific(id) }
    }

    /// Advances the counter and returns a block bound to the new placeholder id.
    pub fn next_free(counter: &mut ArbitraryId) -> (r: Self)
        requires
            *old(counter) < u16::MAX,
        ensures
            *final(counter) == *old(counter) + 1,
            r.id == minted_id(*old(counter)),
    {
        *counter = *counter + 1;
        Self { id: Id::Arbitrary(*counter) }
    }
}

impl Item {
    pub open spec fn resource(self) -> Resource {
        Resource { kind: ResourceKind::Item, id: self.id }
    }

    /// The item with the given concrete id.
    pub fn new(id: SpecificId) -> (r: Self)
        ensures
            r.id == Id::Specific(id),
    {
        Self { id: Id::Specific(id) }
    }

    /// Advances the counter and returns an item bound to the new placeholder id.
    pub fn next_free(counter: &mut ArbitraryId) -> (r: Self)
        requires
            *old(counter) < u16::MAX,
        ensures
            *final(counter) == *old(counter) + 1,
            r.id == minted_id(*old(counter)),
    {
        *counter = *counter + 1;
        Self { id: Id::Arbitrary(*counter) }
    }
}

pub open spec fn group_resource(id: Id) -> Resource {
    Group { id }.resource()
}

pub open spec fn color_resource(id: Id) -> Resource {
    Color { id }.resource()
}

/// Two successive mints from one counter give the ids `n + 1` and `n + 2`,
/// which differ; and a group is never the same resource as a color, so a color
/// counter that stands at the same count mints nothing that collides with them.
pub proof fn lemma_minting_is_fresh(counter: ArbitraryId, color_counter: ArbitraryId)
    requires
        counter as int + 2 <= u16::MAX as int,
        color_counter == counter,
    ensures
        minted_id(counter) == Id::Arbitrary((counter + 1) as u16),
        minted_id((counter + 1) as u16) == Id::Arbitrary((counter + 2) as u16),
        minted_id(counter) != minted_id((counter + 1) as u16),
        color_resource(minted_id(color_counter)) != group_resource(minted_id(counter)),
        color_resource(minted_id(color_counter)) != group_resource(minted_id((counter + 1) as u16)),
{
}

/// The decimal digits of `n`, most significant first.
pub open spec fn decimal(n: nat) -> Seq<char>
    decreases n,
{
    if n < 10 {
        seq![digit_char(n)]
    } else {
        decimal(n / 10).push(digit_char(n % 10))
    }
}

pub open spec fn digit_char(d: nat) -> char {
    (d + 48) as char
}

pub open spec fn group_text(id: Id) -> Seq<char> {
    match id {
        Id::Specific(n) => decimal(n as nat) + seq!['g'],
        Id::Arbitrary(n) => decimal(n as nat) + seq!['?', 'g'],
    }
}

fn id_text(n: u16, placeholder: bool) -> (r: String)
    ensures
        r@ == (if placeholder {
            decimal(n as nat) + seq!['?', 'g']
        } else {
            decimal(n as nat) + seq!['g']
        }),
{
    let mut digits: Vec<char> = Vec::new();
    let mut m: u16 = n;
    // digits are collected least significant first
    loop
        invariant_except_break
            m <= n,
            decimal(n as nat) =~= decimal(m as nat) + reversed(digits@),
        ensures
            decimal(n as nat) =~= reversed(digits@),
        decreases m,
    {
        let d: u16 = m % 10;
        let c: char = ((d as u8) + 48u8) as char;
        assert(c == digit_char(d as nat));
        proof {
            lemma_reversed_push(digits@, c);
        }
        digits.push(c);
        if m < 10 {
            break;
        }
        m = m / 10;
    }
    proof {
        lemma_reversed_index(digits@);
    }
    let mut out = String::new();
    let mut i: usize = digits.len();
    while i > 0
        invariant
            i <= digits.len(),
            reversed(digits@).len() == digits@.len(),
            forall|k: int| 0 <= k < digits@.len() ==> #[trigger] reversed(digits@)[k] == digits@[digits@.len() - 1 - k],
            out@ =~= reversed(digits@).subrange(0, digits.len() - i),
        decreases i,
    {
        i = i - 1;
        push_char(&mut out, digits[i]);
    }
    if placeholder {
        push_char(&mut out, '?');
    }
    push_char(&mut out, 'g');
    out
}

pub open spec fn reversed(s: Seq<char>) -> Seq<char>
    decreases s.len(),
{
    if s.len() == 0 {
        s
    } else {
        reversed(s.drop_first()).push(s[0])
    }
}

proof fn lemma_reversed_index(s: Seq<char>)
    ensures
        reversed(s).len() == s.len(),
        forall|k: int| 0 <= k < s.len() ==> #[trigger] reversed(s)[k] == s[s.len() - 1 - k],
    decreases s.len(),
{
    if s.len() > 0 {
        lemma_reversed_index(s.drop_first());
    }
}

proof fn lemma_reversed_push(s: Seq<char>, c: char)
    ensures
        reversed(s.push(c)) =~= seq![c] + reversed(s),
    decreases s.len(),
{
    if s.len() > 0 {
        assert(s.push(c).drop_first() =~= s.drop_first().push(c));
        lemma_reversed_push(s.drop_first(), c);
        assert(reversed(s.push(c)) == reversed(s.drop_first().push(c)).push(s[0]));
        assert((seq![c] + reversed(s.drop_first())).push(s[0]) =~= seq![c] + reversed(
            s.drop_first(),
        ).push(s[0]));
    } else {
        assert(s.push(c).drop_first() =~= s);
        assert(reversed(s) =~= seq![]);
    }
}

/// Relies on String::push: appends one character.
#[verifier::external_body]
pub(crate) fn push_char(s: &mut String, c: char)
    ensures
        final(s)@ == old(s)@.push(c),
{
    s.push(c)
}

} // verus!
