//! The order in which the bytes of a length travel.
use vstd::prelude::*;

verus! {

/// The order in which a machine lays out the bytes of an integer.
#[derive(Clone, Copy, Debug, PartialEq, Eq, Structural)]
pub enum ByteOrder {
    /// Least significant byte first.
    Little,
    /// Most significant byte first.
    Big,
}

/// The number whose base-256 digits are `b0`, `b1`, `b2` and `b3`, from the lowest up.
pub open spec fn from_digits(b0: u8, b1: u8, b2: u8, b3: u8) -> int {
    b0 + 0x100 * b1 + 0x1_0000 * b2 + 0x100_0000 * b3
}

/// The `i`-th base-256 digit of `value`, counted from the lowest.
pub open spec fn digit(value: u32, i: int) -> u8
    recommends
        0 <= i < 4,
{
    (if i == 0 {
        value as int % 0x100
    } else if i == 1 {
        value as int / 0x100 % 0x100
    } else if i == 2 {
        value as int / 0x1_0000 % 0x100
    } else {
        value as int / 0x100_0000
    }) as u8
}

/// Quotient and remainder by a fixed base are determined by what they spell.
proof fn lemma_quotient(base: int, high: int, low: int)
    by (nonlinear_arith)
    requires
        0 <= low < base,
    ensures
        (base * high + low) / base == high,
        (base * high + low) % base == low,
{
}

/// The digits of a number spell it.
proof fn lemma_digits_spell(value: u32)
    ensures
        from_digits(digit(value, 0), digit(value, 1), digit(value, 2), digit(value, 3)) == value,
{
    let v = value as int;
    assert(v == 0x100 * (v / 0x100) + v % 0x100);
    assert(v / 0x100 == 0x100 * (v / 0x100 / 0x100) + v / 0x100 % 0x100);
    assert(v / 0x1_0000 == 0x100 * (v / 0x1_0000 / 0x100) + v / 0x1_0000 % 0x100);
    assert(v / 0x100 / 0x100 == v / 0x1_0000);
    assert(v / 0x1_0000 / 0x100 == v / 0x100_0000);
}

/// No other digits spell a number.
proof fn lemma_digits_unique(value: u32, b0: u8, b1: u8, b2: u8, b3: u8)
    requires
        from_digits(b0, b1, b2, b3) == value,
    ensures
        b0 == digit(value, 0),
        b1 == digit(value, 1),
        b2 == digit(value, 2),
        b3 == digit(value, 3),
{
    let v = value as int;
    let high = b1 + 0x100 * b2 + 0x1_0000 * b3;
    lemma_quotient(0x100, high, b0 as int);
    lemma_quotient(0x100, b2 + 0x100 * b3, b1 as int);
    lemma_quotient(0x1_0000, b2 + 0x100 * b3, b0 + 0x100 * b1);
    lemma_quotient(0x100, b3 as int, b2 as int);
    lemma_quotient(0x100_0000, b3 as int, b0 + 0x100 * b1 + 0x1_0000 * b2);
    assert(v % 0x100 == b0);
    assert(v / 0x100 == high);
    assert(v / 0x1_0000 == b2 + 0x100 * b3);
    assert(v / 0x100_0000 == b3);
}

/// The digits of a number spell it, and no other digits do.
pub proof fn lemma_digits(value: u32, b0: u8, b1: u8, b2: u8, b3: u8)
    ensures
        from_digits(digit(value, 0), digit(value, 1), digit(value, 2), digit(value, 3)) == value,
        from_digits(b0, b1, b2, b3) == value ==> {
            &&& b0 == digit(value, 0)
            &&& b1 == digit(value, 1)
            &&& b2 == digit(value, 2)
            &&& b3 == digit(value, 3)
        },
        0 <= from_digits(b0, b1, b2, b3) <= u32::MAX,
{
    lemma_digits_spell(value);
    if from_digits(b0, b1, b2, b3) == value {
        lemma_digits_unique(value, b0, b1, b2, b3);
    }
}

/// `u32::to_ne_bytes`: the memory image of `value` in the byte order of the machine, which is one
/// of the two that [`ByteOrder`] knows. Which one it is, the contract leaves open.
#[verifier::external_body]
fn to_ne_bytes(value: u32) -> (image: [u8; 4])
    ensures
        image@ == ByteOrder::Little.image(value) || image@ == ByteOrder::Big.image(value),
{
    value.to_ne_bytes()
}

impl ByteOrder {
    /// The four bytes of `value` in this order.
    pub open spec fn image(self, value: u32) -> Seq<u8> {
        match self {
            ByteOrder::Little => seq![
                digit(value, 0),
                digit(value, 1),
                digit(value, 2),
                digit(value, 3),
            ],
            ByteOrder::Big => seq![
                digit(value, 3),
                digit(value, 2),
                digit(value, 1),
                digit(value, 0),
            ],
        }
    }

    /// The number that four bytes in this order spell.
    pub open spec fn value(self, image: Seq<u8>) -> u32
        recommends
            image.len() == 4,
    {
        match self {
            ByteOrder::Little => from_digits(image[0], image[1], image[2], image[3]) as u32,
            ByteOrder::Big => from_digits(image[3], image[2], image[1], image[0]) as u32,
        }
    }

    /// Lays out `value` in this order.
    pub fn encode(self, value: u32) -> (image: Vec<u8>)
        ensures
            image@ == self.image(value),
    {
        let b0: u8 = (value % 0x100) as u8;
        let b1: u8 = (value / 0x100 % 0x100) as u8;
        let b2: u8 = (value / 0x1_0000 % 0x100) as u8;
        let b3: u8 = (value / 0x100_0000) as u8;
        match self {
            ByteOrder::Little => vec![b0, b1, b2, b3],
            ByteOrder::Big => vec![b3, b2, b1, b0],
        }
    }

    /// Reads four bytes that are laid out in this order.
    pub fn decode(self, image: &Vec<u8>) -> (value: u32)
        requires
            image@.len() == 4,
        ensures
            value == self.value(image@),
    {
        let (b0, b1, b2, b3): (u8, u8, u8, u8) = match self {
            ByteOrder::Little => (image[0], image[1], image[2], image[3]),
            ByteOrder::Big => (image[3], image[2], image[1], image[0]),
        };
        proof {
            lemma_digits(0, b0, b1, b2, b3);
        }
        b0 as u32 + 0x100 * b1 as u32 + 0x1_0000 * b2 as u32 + 0x100_0000 * b3 as u32
    }

    /// The order in which the number 1 has the given memory image, if there is one.
    pub fn of_image(image: [u8; 4]) -> (order: Option<ByteOrder>)
        ensures
            order == (if image@ == ByteOrder::Little.image(1) {
                Some(ByteOrder::Little)
            } else if image@ == ByteOrder::Big.image(1) {
                Some(ByteOrder::Big)
            } else {
                None
            }),
    {
        if image[0] == 1 && image[1] == 0 && image[2] == 0 && image[3] == 0 {
            assert(image@ =~= ByteOrder::Little.image(1));
            Some(ByteOrder::Little)
        } else if image[0] == 0 && image[1] == 0 && image[2] == 0 && image[3] == 1 {
            assert(image@ =~= ByteOrder::Big.image(1));
            assert(image@[0] != ByteOrder::Little.image(1)[0]);
            Some(ByteOrder::Big)
        } else {
            assert(image@ != ByteOrder::Little.image(1)) by {
                let one = ByteOrder::Little.image(1);
                assert(one[0] == 1 && one[1] == 0 && one[2] == 0 && one[3] == 0);
            }
            assert(image@ != ByteOrder::Big.image(1)) by {
                let one = ByteOrder::Big.image(1);
                assert(one[0] == 0 && one[1] == 0 && one[2] == 0 && one[3] == 1);
            }
            None
        }
    }

    /// The machine that the program runs on lays out the number 1 in this order.
    pub closed spec fn is_native(self) -> bool {
        exists|image: [u8; 4]|
            #[trigger] call_ensures(to_ne_bytes, (1u32,), image) && image@ == self.image(1)
    }

    /// The byte order of the machine that the program runs on.
    pub fn native() -> (order: ByteOrder)
        ensures
            order.is_native(),
    {
        match Self::of_image(to_ne_bytes(1)) {
            Some(order) => order,
            None => {
                assert(false);
                ByteOrder::Little
            },
        }
    }
}

/// Reading gives back what was laid out, in either byte order: `value` and `image` undo each
/// other.
pub proof fn lemma_image_value(order: ByteOrder, value: u32, image: Seq<u8>)
    ensures
        order.image(value).len() == 4,
        order.value(order.image(value)) == value,
        image.len() == 4 ==> order.image(order.value(image)) == image,
{
    lemma_digits(value, 0, 0, 0, 0);
    if image.len() == 4 {
        let read = order.value(image);
        match order {
            ByteOrder::Little => lemma_digits(read, image[0], image[1], image[2], image[3]),
            ByteOrder::Big => lemma_digits(read, image[3], image[2], image[1], image[0]),
        }
        assert(order.image(read) =~= image);
    }
}

/// Four bytes stand for the number that they spell in base 256, and the other way round: the
/// lowest digit comes first in one order and last in the other.
pub proof fn lemma_positions(value: u32, bytes: Seq<u8>)
    requires
        bytes.len() == 4,
    ensures
        ByteOrder::Little.value(bytes) == bytes[0] + 0x100 * bytes[1] + 0x1_0000 * bytes[2]
            + 0x100_0000 * bytes[3],
        ByteOrder::Big.value(bytes) == bytes[3] + 0x100 * bytes[2] + 0x1_0000 * bytes[1]
            + 0x100_0000 * bytes[0],
        bytes == ByteOrder::Little.image(value) <==> value == bytes[0] + 0x100 * bytes[1] + 0x1_0000
            * bytes[2] + 0x100_0000 * bytes[3],
        bytes == ByteOrder::Big.image(value) <==> value == bytes[3] + 0x100 * bytes[2] + 0x1_0000
            * bytes[1] + 0x100_0000 * bytes[0],
        ByteOrder::Big.image(value) == ByteOrder::Little.image(value).reverse(),
{
    lemma_digits(value, bytes[0], bytes[1], bytes[2], bytes[3]);
    lemma_digits(value, bytes[3], bytes[2], bytes[1], bytes[0]);
    lemma_image_value(ByteOrder::Little, value, bytes);
    lemma_image_value(ByteOrder::Big, value, bytes);
    assert(ByteOrder::Big.image(value) =~= ByteOrder::Little.image(value).reverse());
}

/// What a call of [`ByteOrder::encode`] lays out are four bytes that spell the number, and what a
/// call of [`ByteOrder::decode`] reads from four bytes is the number that they spell.
pub proof fn lemma_coded(order: ByteOrder, value: u32, image: Vec<u8>, read: u32)
    requires
        call_ensures(ByteOrder::encode, (order, value), image) || image@.len() == 4 && call_ensures(
            ByteOrder::decode,
            (order, &image),
            value,
        ),
    ensures
        image@.len() == 4,
        value == (match order {
            ByteOrder::Little => image@[0] + 0x100 * image@[1] + 0x1_0000 * image@[2] + 0x100_0000
                * image@[3],
            ByteOrder::Big => image@[3] + 0x100 * image@[2] + 0x1_0000 * image@[1] + 0x100_0000
                * image@[0],
        }),
        call_ensures(ByteOrder::decode, (order, &image), read) ==> read == value,
{
    lemma_image_value(order, value, image@);
    lemma_positions(value, image@);
}

/// The number 1 tells the two byte orders apart by where its one is.
pub proof fn lemma_of_image(image: [u8; 4], order: Option<ByteOrder>)
    requires
        call_ensures(ByteOrder::of_image, (image,), order),
    ensures
        order == Some(ByteOrder::Little) <==> image@ == seq![1u8, 0u8, 0u8, 0u8],
        order == Some(ByteOrder::Big) <==> image@ == seq![0u8, 0u8, 0u8, 1u8],
{
    lemma_positions(1, image@);
    if image@ == ByteOrder::Little.image(1) {
        assert(image@ =~= seq![1u8, 0u8, 0u8, 0u8]);
    }
    if image@ == ByteOrder::Big.image(1) {
        assert(image@ =~= seq![0u8, 0u8, 0u8, 1u8]);
    }
}

/// The order that [`ByteOrder::native`] finds is the one in which the machine has laid out the
/// number 1.
proof fn lemma_native(order: ByteOrder)
    requires
        call_ensures(ByteOrder::native, (), order),
    ensures
        exists|image: [u8; 4]| #[trigger]
            call_ensures(to_ne_bytes, (1u32,), image) && (match order {
                ByteOrder::Little => image@ == seq![1u8, 0u8, 0u8, 0u8],
                ByteOrder::Big => image@ == seq![0u8, 0u8, 0u8, 1u8],
            }),
{
    let image = choose|image: [u8; 4]| #[trigger]
        call_ensures(to_ne_bytes, (1u32,), image) && image@ == order.image(1);
    assert(image@ =~= match order {
        ByteOrder::Little => seq![1u8, 0u8, 0u8, 0u8],
        ByteOrder::Big => seq![0u8, 0u8, 0u8, 1u8],
    });
}

} // verus!
