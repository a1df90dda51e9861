//! Vertex attribute layouts: which shader input register is fed with how many
//! components of which format.

use vstd::prelude::*;
use crate::error::Citro3dError;

verus! {

/// The most attributes one layout can hold.
pub const MAX_ATTRIBUTES: usize = 12;

/// The number of shader input registers.
pub const REGISTER_COUNT: u16 = 16;

/// The format of one component of an attribute.
#[derive(Debug, Clone, Copy, PartialEq, Eq, Structural)]
pub enum Format {
    Byte,
    UnsignedByte,
    Short,
    Float,
}

/// A shader input register.
#[derive(Debug, Clone, Copy, PartialEq, Eq, Structural)]
pub struct Register(u8);

/// Register `n`.
pub closed spec fn register(n: nat) -> Register {
    Register(n as u8)
}

/// Register `n` has the number `n`, and no other register has.
pub proof fn lemma_register(n: nat, r: Register)
    requires
        n < REGISTER_COUNT,
    ensures
        register(n).index() == n,
        r.index() == n ==> r == register(n),
{
}

impl Register {
    /// The number of the register, below [`REGISTER_COUNT`].
    pub closed spec fn index(self) -> nat {
        self.0 as nat
    }

    #[verifier::type_invariant]
    spec fn inv(self) -> bool {
        self.0 < 16
    }

    /// Register `n`, if there is one.
    pub fn new(n: u16) -> (r: Result<Register, Citro3dError>)
        ensures
            n < REGISTER_COUNT ==> r is Ok && r->Ok_0 == register(n as nat) && r->Ok_0.index() == n,
            n >= REGISTER_COUNT ==> r == Err::<Register, Citro3dError>(
                Citro3dError::TooManyAttributes,
            ),
    {
        if n < REGISTER_COUNT {
            Ok(Register(n as u8))
        } else {
            Err(Citro3dError::TooManyAttributes)
        }
    }

    pub fn number(&self) -> (n: u8)
        ensures
            n == self.index(),
            n < REGISTER_COUNT,
    {
        proof {
            use_type_invariant(self);
        }
        self.0
    }
}

/// One attribute of a vertex.
#[derive(Debug, Clone, Copy, PartialEq, Eq, Structural)]
pub struct VertexAttribute {
    pub register: Register,
    pub format: Format,
    pub count: u8,
}

/// The value of a hexadecimal digit at position `n`.
pub open spec fn pow16(n: nat) -> nat
    decreases n,
{
    if n == 0 {
        1
    } else {
        16 * pow16((n - 1) as nat)
    }
}

/// The permutation word of a layout: attribute `i` contributes its register
/// as the hexadecimal digit at position `i`.
pub open spec fn permutation_of(attrs: Seq<VertexAttribute>) -> nat
    decreases attrs.len(),
{
    if attrs.len() == 0 {
        0
    } else {
        attrs[0].register.index() + 16 * permutation_of(attrs.drop_first())
    }
}

/// The number that the hardware knows a format by.
pub open spec fn format_code(format: Format) -> nat {
    match format {
        Format::Byte => 0,
        Format::UnsignedByte => 1,
        Format::Short => 2,
        Format::Float => 3,
    }
}

/// What the hardware is told of the format of one attribute: a hexadecimal
/// digit made of the component count and the format.
pub open spec fn format_digit(attr: VertexAttribute) -> nat {
    ((attr.count - 1) * 4 + format_code(attr.format)) as nat
}

/// The format word of a layout: attribute `i` contributes its
/// [`format_digit`] as the hexadecimal digit at position `i`.
pub open spec fn formats_of(attrs: Seq<VertexAttribute>) -> nat
    decreases attrs.len(),
{
    if attrs.len() == 0 {
        0
    } else {
        format_digit(attrs[0]) + 16 * formats_of(attrs.drop_first())
    }
}

/// A layout as the hardware is given it.
#[derive(Debug, Clone, Copy, PartialEq, Eq, Structural)]
pub struct AttrInfo {
    pub permutation: u64,
    pub formats: u64,
    pub count: i32,
}

/// What the hardware is given for the layout `attrs`.
pub open spec fn info_of(attrs: Seq<VertexAttribute>) -> AttrInfo {
    AttrInfo {
        permutation: permutation_of(attrs) as u64,
        formats: formats_of(attrs) as u64,
        count: attrs.len() as i32,
    }
}

/// Whether a layout has room for `attr` and the hardware can load it.
pub open spec fn attribute_fits(attrs: Seq<VertexAttribute>, attr: VertexAttribute) -> bool {
    1 <= attr.count <= 4 && attrs.len() < MAX_ATTRIBUTES
}

proof fn lemma_pow16_monotonic(a: nat, b: nat)
    requires
        a <= b,
    ensures
        pow16(a) <= pow16(b),
    decreases b,
{
    if a < b {
        lemma_pow16_monotonic(a, (b - 1) as nat);
    }
}

proof fn lemma_permutation_bound(attrs: Seq<VertexAttribute>)
    requires
        forall|i: int| 0 <= i < attrs.len() ==> attrs[i].register.index() < 16,
    ensures
        permutation_of(attrs) < pow16(attrs.len()),
    decreases attrs.len(),
{
    if attrs.len() > 0 {
        lemma_permutation_bound(attrs.drop_first());
    }
}

proof fn lemma_formats_bound(attrs: Seq<VertexAttribute>)
    requires
        forall|i: int| 0 <= i < attrs.len() ==> 1 <= (#[trigger] attrs[i]).count <= 4,
    ensures
        formats_of(attrs) < pow16(attrs.len()),
    decreases attrs.len(),
{
    if attrs.len() > 0 {
        lemma_formats_bound(attrs.drop_first());
    }
}

/// An attribute layout: the attributes of one vertex, in the order in which
/// they lie in memory.
#[derive(Debug)]
pub struct VertexAttrs {
    attrs: Vec<VertexAttribute>,
}

impl View for VertexAttrs {
    type V = Seq<VertexAttribute>;

    closed spec fn view(&self) -> Seq<VertexAttribute> {
        self.attrs@
    }
}

impl Default for VertexAttrs {
    fn default() -> (layout: Self)
        ensures
            layout@ == Seq::<VertexAttribute>::empty(),
            layout.wf(),
    {
        VertexAttrs { attrs: Vec::new() }
    }
}

impl VertexAttrs {
    /// What every layout satisfies.
    pub open spec fn wf(self) -> bool {
        &&& self@.len() <= MAX_ATTRIBUTES
        &&& forall|i: int| 0 <= i < self@.len() ==> 1 <= (#[trigger] self@[i]).count <= 4
        &&& forall|i: int| 0 <= i < self@.len() ==> (#[trigger] self@[i]).register.index() < 16
    }

    /// The layout made of `attrs`, in their order.
    pub fn new(attrs: &[VertexAttribute]) -> (r: Result<VertexAttrs, Citro3dError>)
        ensures
            match r {
                Ok(layout) => layout@ == attrs@ && layout.wf(),
                Err(e) => exists|i: int|
                    {
                        &&& 0 <= i < attrs@.len()
                        &&& forall|j: int| 0 <= j < i ==> attribute_fits(attrs@.take(j), attrs@[j])
                        &&& !attribute_fits(attrs@.take(i), attrs@[i])
                        &&& e == rejection(attrs@.take(i), attrs@[i])
                    },
            },
            r is Ok <==> forall|j: int| 0 <= j < attrs@.len() ==> attribute_fits(attrs@.take(j), attrs@[j]),
    {
        let mut me = VertexAttrs::default();
        let mut i: usize = 0;
        while i < attrs.len()
            invariant
                i <= attrs.len(),
                me@ == attrs@.take(i as int),
                me.wf(),
                forall|j: int| 0 <= j < i ==> attribute_fits(attrs@.take(j), attrs@[j]),
            decreases attrs.len() - i,
        {
            match me.add_attr(&attrs[i]) {
                Ok(()) => {},
                Err(e) => {
                    return Err(e);
                },
            }
            assert(attrs@.take(i as int).push(attrs@[i as int]) == attrs@.take(i + 1));
            i += 1;
        }
        assert(attrs@.take(attrs@.len() as int) == attrs@);
        Ok(me)
    }

    /// Appends one attribute.
    pub fn add_attr(&mut self, attr: &VertexAttribute) -> (r: Result<(), Citro3dError>)
        requires
            old(self).wf(),
        ensures
            attribute_fits(old(self)@, *attr) ==> r is Ok && final(self)@ == old(self)@.push(*attr),
            !attribute_fits(old(self)@, *attr) ==> r == Err::<(), Citro3dError>(
                rejection(old(self)@, *attr),
            ) && final(self)@ == old(self)@,
            final(self).wf(),
    {
        proof {
            use_type_invariant(&attr.register);
        }
        if attr.count == 0 || attr.count > 4 {
            return Err(Citro3dError::InvalidSize);
        }
        if self.attrs.len() >= MAX_ATTRIBUTES {
            return Err(Citro3dError::TooManyAttributes);
        }
        self.attrs.push(*attr);
        Ok(())
    }

    /// The permutation word that the hardware is given for this layout.
    pub fn permutation(&self) -> (p: u64)
        requires
            self.wf(),
        ensures
            p == permutation_of(self@),
    {
        let n: usize = self.attrs.len();
        let mut acc: u64 = 0;
        let mut i: usize = n;
        while i > 0
            invariant
                n == self.attrs.len(),
                n <= MAX_ATTRIBUTES,
                i <= n,
                self.wf(),
                acc == permutation_of(self@.subrange(i as int, n as int)),
            decreases i,
        {
            i -= 1;
            let ghost tail = self@.subrange(i as int, n as int);
            proof {
                assert(tail.drop_first() == self@.subrange(i + 1, n as int));
                lemma_permutation_bound(tail.drop_first());
                lemma_pow16_monotonic(tail.drop_first().len(), 11);
                reveal_with_fuel(pow16, 12);
                assert(pow16(11) == 0x1000_0000_0000);
            }
            acc = self.attrs[i].register.number() as u64 + 16 * acc;
        }
        assert(self@.subrange(0, n as int) == self@);
        acc
    }

    /// The format word that the hardware is given for this layout.
    pub fn formats(&self) -> (f: u64)
        requires
            self.wf(),
        ensures
            f == formats_of(self@),
    {
        let n: usize = self.attrs.len();
        let mut acc: u64 = 0;
        let mut i: usize = n;
        while i > 0
            invariant
                n == self.attrs.len(),
                n <= MAX_ATTRIBUTES,
                i <= n,
                self.wf(),
                acc == formats_of(self@.subrange(i as int, n as int)),
            decreases i,
        {
            i -= 1;
            let ghost tail = self@.subrange(i as int, n as int);
            proof {
                assert(tail.drop_first() == self@.subrange(i + 1, n as int));
                lemma_formats_bound(tail.drop_first());
                lemma_pow16_monotonic(tail.drop_first().len(), 11);
                reveal_with_fuel(pow16, 12);
                assert(pow16(11) == 0x1000_0000_0000);
                assert(tail[0] == self@[i as int]);
            }
            let attr = self.attrs[i];
            let code: u64 = match attr.format {
                Format::Byte => 0,
                Format::UnsignedByte => 1,
                Format::Short => 2,
                Format::Float => 3,
            };
            acc = (attr.count as u64 - 1) * 4 + code + 16 * acc;
        }
        assert(self@.subrange(0, n as int) == self@);
        acc
    }

    /// The layout as the hardware is given it.
    pub fn info(&self) -> (info: AttrInfo)
        requires
            self.wf(),
        ensures
            info == info_of(self@),
    {
        AttrInfo {
            permutation: self.permutation(),
            formats: self.formats(),
            count: self.count(),
        }
    }

    /// The attribute at place `i`, if the layout has that many.
    pub fn attribute(&self, i: usize) -> (attr: Option<VertexAttribute>)
        ensures
            attr == (if i < self@.len() {
                Some(self@[i as int])
            } else {
                None
            }),
    {
        if i < self.attrs.len() {
            Some(self.attrs[i])
        } else {
            None
        }
    }

    /// The number of attributes.
    pub fn count(&self) -> (n: i32)
        requires
            self.wf(),
        ensures
            n == self@.len(),
    {
        self.attrs.len() as i32
    }

    /// Whether `other` is the same layout.
    pub fn same_layout(&self, other: &VertexAttrs) -> (same: bool)
        ensures
            same == (self@ == other@),
    {
        if self.attrs.len() != other.attrs.len() {
            return false;
        }
        let mut i: usize = 0;
        while i < self.attrs.len()
            invariant
                i <= self.attrs.len(),
                self.attrs.len() == other.attrs.len(),
                forall|j: int| 0 <= j < i ==> self@[j] == other@[j],
            decreases self.attrs.len() - i,
        {
            if self.attrs[i] != other.attrs[i] {
                assert(self@[i as int] != other@[i as int]);
                return false;
            }
            i += 1;
        }
        assert(self@ =~= other@);
        true
    }

    /// A copy of the layout.
    pub fn duplicate(&self) -> (copy: VertexAttrs)
        ensures
            copy@ == self@,
    {
        let mut attrs: Vec<VertexAttribute> = Vec::new();
        let mut i: usize = 0;
        while i < self.attrs.len()
            invariant
                i <= self.attrs.len(),
                attrs@ == self@.take(i as int),
            decreases self.attrs.len() - i,
        {
            attrs.push(self.attrs[i]);
            assert(self@.take(i as int).push(self@[i as int]) == self@.take(i + 1));
            i += 1;
        }
        assert(self@.take(self@.len() as int) == self@);
        VertexAttrs { attrs }
    }
}

/// The error that an attribute which does not fit is refused with.
pub open spec fn rejection(attrs: Seq<VertexAttribute>, attr: VertexAttribute) -> Citro3dError {
    if attr.count == 0 || attr.count > 4 {
        Citro3dError::InvalidSize
    } else {
        Citro3dError::TooManyAttributes
    }
}

proof fn lemma_permutation_push(attrs: Seq<VertexAttribute>, attr: VertexAttribute)
    ensures
        permutation_of(attrs.push(attr)) == permutation_of(attrs) + attr.register.index() * pow16(
            attrs.len(),
        ),
        formats_of(attrs.push(attr)) == formats_of(attrs) + format_digit(attr) * pow16(attrs.len()),
    decreases attrs.len(),
{
    let more = attrs.push(attr);
    if attrs.len() == 0 {
        assert(more.drop_first() =~= Seq::empty());
        assert(permutation_of(more.drop_first()) == 0);
        assert(formats_of(more.drop_first()) == 0);
        assert(pow16(0) == 1);
        assert(attr.register.index() * 1 == attr.register.index()) by (nonlinear_arith);
        assert(format_digit(attr) * 1 == format_digit(attr)) by (nonlinear_arith);
    } else {
        assert(more.drop_first() =~= attrs.drop_first().push(attr));
        assert(more[0] == attrs[0]);
        lemma_permutation_push(attrs.drop_first(), attr);
        let rest = pow16((attrs.len() - 1) as nat);
        let reg = attr.register.index();
        let digit = format_digit(attr);
        assert(attrs.drop_first().len() == attrs.len() - 1);
        assert(pow16(attrs.len()) == 16 * rest);
        assert(16 * (reg * rest) == reg * (16 * rest)) by (nonlinear_arith);
        assert(16 * (digit * rest) == digit * (16 * rest)) by (nonlinear_arith);
    }
}

/// Two layouts that the hardware is given the same words for are the same
/// layout.
pub proof fn lemma_info_tells_layouts_apart(a: Seq<VertexAttribute>, b: Seq<VertexAttribute>)
    requires
        a.len() == b.len(),
        forall|i: int| 0 <= i < a.len() ==> 1 <= (#[trigger] a[i]).count <= 4,
        forall|i: int| 0 <= i < b.len() ==> 1 <= (#[trigger] b[i]).count <= 4,
        forall|i: int| 0 <= i < a.len() ==> (#[trigger] a[i]).register.index() < 16,
        forall|i: int| 0 <= i < b.len() ==> (#[trigger] b[i]).register.index() < 16,
        permutation_of(a) == permutation_of(b),
        formats_of(a) == formats_of(b),
    ensures
        a == b,
    decreases a.len(),
{
    if a.len() == 0 {
        assert(a =~= b);
    } else {
        let (x, y) = (a[0], b[0]);
        assert(x.register.index() == y.register.index() && permutation_of(a.drop_first())
            == permutation_of(b.drop_first())) by {
            let (p, q) = (permutation_of(a.drop_first()), permutation_of(b.drop_first()));
            assert(x.register.index() + 16 * p == y.register.index() + 16 * q);
        }
        assert(format_digit(x) == format_digit(y) && formats_of(a.drop_first()) == formats_of(
            b.drop_first(),
        )) by {
            let (p, q) = (formats_of(a.drop_first()), formats_of(b.drop_first()));
            assert(format_digit(x) + 16 * p == format_digit(y) + 16 * q);
        }
        lemma_register(x.register.index(), x.register);
        lemma_register(y.register.index(), y.register);
        assert(x.count == y.count && x.format == y.format);
        assert(x == y);
        assert forall|i: int| 0 <= i < a.drop_first().len() implies 1 <= (
        #[trigger] a.drop_first()[i]).count <= 4 && a.drop_first()[i].register.index() < 16 by {
            assert(a.drop_first()[i] == a[i + 1]);
        }
        assert forall|i: int| 0 <= i < b.drop_first().len() implies 1 <= (
        #[trigger] b.drop_first()[i]).count <= 4 && b.drop_first()[i].register.index() < 16 by {
            assert(b.drop_first()[i] == b[i + 1]);
        }
        lemma_info_tells_layouts_apart(a.drop_first(), b.drop_first());
        assert(a =~= seq![x] + a.drop_first());
        assert(b =~= seq![y] + b.drop_first());
    }
}

/// Whether `info` is what the hardware is given for some layout.
pub open spec fn names_a_layout(info: AttrInfo) -> bool {
    exists|attrs: Seq<VertexAttribute>|
        #![trigger info_of(attrs)]
        {
            &&& attrs.len() <= MAX_ATTRIBUTES
            &&& forall|i: int| 0 <= i < attrs.len() ==> 1 <= (#[trigger] attrs[i]).count <= 4
            &&& forall|i: int| 0 <= i < attrs.len() ==> (#[trigger] attrs[i]).register.index() < 16
            &&& info_of(attrs) == info
        }
}

impl VertexAttrs {
    /// The layout that the hardware is given `info` for, if there is one.
    pub fn from_citro3d(info: AttrInfo) -> (r: Result<VertexAttrs, Citro3dError>)
        ensures
            match r {
                Ok(layout) => layout.wf() && info_of(layout@) == info,
                Err(e) => e == Citro3dError::InvalidSize && !names_a_layout(info),
            },
    {
        if info.count < 0 || info.count > 12 {
            proof {
                if names_a_layout(info) {
                    let attrs = choose|attrs: Seq<VertexAttribute>|
                        #![trigger info_of(attrs)]
                        attrs.len() <= MAX_ATTRIBUTES && info_of(attrs) == info;
                    assert(info.count == attrs.len());
                }
            }
            return Err(Citro3dError::InvalidSize);
        }
        let n: usize = info.count as usize;
        let mut layout = VertexAttrs::default();
        let mut registers: u64 = info.permutation;
        let mut digits: u64 = info.formats;
        let mut i: usize = 0;
        proof {
            assert(pow16(0) == 1);
            assert(registers * 1 == registers) by (nonlinear_arith);
            assert(digits * 1 == digits) by (nonlinear_arith);
        }
        while i < n
            invariant
                i <= n,
                n <= MAX_ATTRIBUTES,
                layout.wf(),
                layout@.len() == i,
                info.permutation == permutation_of(layout@) + registers * pow16(i as nat),
                info.formats == formats_of(layout@) + digits * pow16(i as nat),
            decreases n - i,
        {
            let register = match Register::new((registers % 16) as u16) {
                Ok(register) => register,
                Err(e) => {
                    assert(false);
                    return Err(e);
                },
            };
            let digit: u8 = (digits % 16) as u8;
            let format = if digit % 4 == 0 {
                Format::Byte
            } else if digit % 4 == 1 {
                Format::UnsignedByte
            } else if digit % 4 == 2 {
                Format::Short
            } else {
                Format::Float
            };
            let attr = VertexAttribute { register, format, count: digit / 4 + 1 };
            proof {
                lemma_permutation_push(layout@, attr);
                let w = pow16(i as nat);
                assert(pow16((i + 1) as nat) == 16 * w);
                assert(format_digit(attr) == digits % 16);
                assert(attr.register.index() == registers % 16);
                let (rq, rr) = ((registers / 16) as int, (registers % 16) as int);
                let (dq, dr) = ((digits / 16) as int, (digits % 16) as int);
                assert(registers * w == rr * w + rq * (16 * w)) by (nonlinear_arith)
                    requires
                        registers == 16 * rq + rr,
                ;
                assert(digits * w == dr * w + dq * (16 * w)) by (nonlinear_arith)
                    requires
                        digits == 16 * dq + dr,
                ;
            }
            let added = layout.add_attr(&attr);
            registers = registers / 16;
            digits = digits / 16;
            i += 1;
        }
        if registers != 0 || digits != 0 {
            proof {
                if names_a_layout(info) {
                    let attrs = choose|attrs: Seq<VertexAttribute>|
                        #![trigger info_of(attrs)]
                        {
                            &&& attrs.len() <= MAX_ATTRIBUTES
                            &&& forall|i: int|
                                0 <= i < attrs.len() ==> 1 <= (#[trigger] attrs[i]).count <= 4
                            &&& forall|i: int|
                                0 <= i < attrs.len() ==> (#[trigger] attrs[i]).register.index()
                                    < 16
                            &&& info_of(attrs) == info
                        };
                    lemma_words_fit(attrs);
                    lemma_permutation_bound(attrs);
                    lemma_formats_bound(attrs);
                    lemma_permutation_bound(layout@);
                    lemma_formats_bound(layout@);
                    let w = pow16(n as nat);
                    assert(w > 0) by {
                        lemma_pow16_monotonic(0, n as nat);
                    }
                    assert(registers * w >= w || registers == 0) by (nonlinear_arith)
                        requires
                            w > 0,
                            registers >= 0,
                    ;
                    assert(digits * w >= w || digits == 0) by (nonlinear_arith)
                        requires
                            w > 0,
                            digits >= 0,
                    ;
                }
            }
            return Err(Citro3dError::InvalidSize);
        }
        proof {
            assert(0 * pow16(n as nat) == 0) by (nonlinear_arith);
        }
        Ok(layout)
    }
}

proof fn lemma_words_fit(attrs: Seq<VertexAttribute>)
    requires
        attrs.len() <= MAX_ATTRIBUTES,
        forall|i: int| 0 <= i < attrs.len() ==> 1 <= (#[trigger] attrs[i]).count <= 4,
        forall|i: int| 0 <= i < attrs.len() ==> (#[trigger] attrs[i]).register.index() < 16,
    ensures
        permutation_of(attrs) <= u64::MAX,
        formats_of(attrs) <= u64::MAX,
        info_of(attrs).permutation == permutation_of(attrs),
        info_of(attrs).formats == formats_of(attrs),
        info_of(attrs).count == attrs.len(),
{
    lemma_permutation_bound(attrs);
    lemma_formats_bound(attrs);
    lemma_pow16_monotonic(attrs.len(), 12);
    reveal_with_fuel(pow16, 13);
    assert(pow16(12) == 0x1_0000_0000_0000);
}

/// A layout is found again from what the hardware is given for it: the
/// words of a layout name that layout and no other.
pub proof fn lemma_layout_round_trip(layout: VertexAttrs, found: VertexAttrs)
    requires
        layout.wf(),
        found.wf(),
        info_of(found@) == info_of(layout@),
    ensures
        found@ == layout@,
        names_a_layout(info_of(layout@)),
{
    lemma_words_fit(layout@);
    lemma_words_fit(found@);
    lemma_info_tells_layouts_apart(found@, layout@);
}

} // verus!
