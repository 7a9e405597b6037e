//! Layout of interleaved vertex attributes in a buffer.
//!
//! The attributes of one vertex follow each other without gaps, each made of
//! a few components of one machine type. From a list of attributes this
//! module works out the byte offset at which each begins, in the form that a
//! graphics context takes: thirty-two-bit integers, with wider values cut
//! down to their low bits.

use vstd::prelude::*;

verus! {

/// Component type code of a single-precision number.
pub const FLOAT: u32 = 0x1406;

/// Component type code of an unsigned byte.
pub const UNSIGNED_BYTE: u32 = 0x1401;

/// One attribute of a vertex as a shader program sees it.
#[derive(Clone, Copy, Debug, PartialEq, Eq, Structural)]
pub struct AttribInfo {
    /// Where the program expects the attribute; negative where the program
    /// has no such attribute.
    pub location: i32,
    /// Number of components.
    pub num_components: usize,
    /// Component type code.
    pub type_: u32,
    /// Whether integer components are scaled to the unit interval.
    pub normalised: bool,
}

/// Where an attribute is found in each vertex of a buffer.
#[derive(Clone, Copy, Debug, PartialEq, Eq, Structural)]
pub struct AttribPointer {
    /// The attribute's location, as an index.
    pub index: u32,
    /// Number of components.
    pub size: i32,
    /// Component type code.
    pub type_: u32,
    /// Whether integer components are scaled to the unit interval.
    pub normalised: bool,
    /// Bytes from one vertex to the next.
    pub stride: i32,
    /// Bytes from the start of a vertex to the attribute.
    pub offset: i32,
}

/// Why a list of attributes has no layout.
#[derive(Clone, Copy, Debug, PartialEq, Eq, Structural)]
pub enum LayoutError {
    /// An attribute has a component type whose size is not known.
    UnsupportedType,
    /// The attributes of one vertex take more bytes than an `i32` counts.
    OffsetOverflow,
}

/// The integer that the low thirty-two bits of `n` encode in two's
/// complement.
pub open spec fn low_bits_signed(n: int) -> int {
    (n + 0x8000_0000) % 0x1_0000_0000 - 0x8000_0000
}

/// The integer that the low thirty-two bits of `n` encode without a sign.
pub open spec fn low_bits_unsigned(n: int) -> int {
    n % 0x1_0000_0000
}

/// Bytes taken by one component of the given type, where known.
pub open spec fn component_bytes(type_: u32) -> Option<int> {
    if type_ == FLOAT {
        Some(4)
    } else if type_ == UNSIGNED_BYTE {
        Some(1)
    } else {
        None
    }
}

/// Bytes taken by an attribute, where the size of its components is known.
pub open spec fn attrib_bytes(attrib: AttribInfo) -> Option<int> {
    match component_bytes(attrib.type_) {
        Some(bytes) => Some(low_bits_signed(attrib.num_components as int) * bytes),
        None => None,
    }
}

/// Whether `n` can be held in an `i32`.
pub open spec fn fits_i32(n: int) -> bool {
    i32::MIN <= n <= i32::MAX
}

/// Bytes taken by all the attributes together, counted one attribute after
/// the other; or what stops the count at the first attribute that it cannot
/// take in.
pub open spec fn layout_of(attribs: Seq<AttribInfo>) -> Result<int, LayoutError>
    decreases attribs.len(),
{
    if attribs.len() == 0 {
        Ok(0)
    } else {
        match layout_of(attribs.drop_last()) {
            Err(e) => Err(e),
            Ok(offset) => match attrib_bytes(attribs.last()) {
                None => Err(LayoutError::UnsupportedType),
                Some(bytes) => if fits_i32(bytes) && fits_i32(offset + bytes) {
                    Ok(offset + bytes)
                } else {
                    Err(LayoutError::OffsetOverflow)
                },
            },
        }
    }
}

/// Where attribute `k` of the list is found in a vertex: right behind the
/// attributes before it.
pub open spec fn pointer_of(attribs: Seq<AttribInfo>, stride: usize, k: int) -> AttribPointer {
    AttribPointer {
        index: low_bits_unsigned(attribs[k].location as int) as u32,
        size: low_bits_signed(attribs[k].num_components as int) as i32,
        type_: attribs[k].type_,
        normalised: attribs[k].normalised,
        stride: low_bits_signed(stride as int) as i32,
        offset: layout_of(attribs.take(k))->Ok_0 as i32,
    }
}

/// Bytes taken by one component of the given type, where known.
pub fn component_size(type_: u32) -> (r: Option<i32>)
    ensures
        match r {
            Some(n) => component_bytes(type_) == Some(n as int),
            None => component_bytes(type_) is None,
        },
{
    if type_ == FLOAT {
        Some(4)
    } else if type_ == UNSIGNED_BYTE {
        Some(1)
    } else {
        None
    }
}

/// Cuts a location down to an index.
fn index_of(location: i32) -> (r: u32)
    ensures
        r == low_bits_unsigned(location as int),
{
    let r = #[verifier::truncate] (location as u32);
    assert(r == low_bits_unsigned(location as int)) by (bit_vector)
        requires
            r == location as u32,
    ;
    r
}

/// Cuts a count down to thirty-two bits.
fn narrow(n: usize) -> (r: i32)
    ensures
        r == low_bits_signed(n as int),
{
    let r = #[verifier::truncate] (n as i32);
    assert(r == low_bits_signed(n as int)) by (bit_vector)
        requires
            r == n as i32,
    ;
    r
}

/// Lays out the attributes of a vertex one after the other and says where
/// each is found. Fails at the first attribute whose component type has no
/// known size, or with which the byte count leaves the range of an `i32`.
pub fn attrib_pointers(attribs: &Vec<AttribInfo>, stride: usize) -> (r: Result<
    Vec<AttribPointer>,
    LayoutError,
>)
    ensures
        match r {
            Ok(pointers) => {
                &&& layout_of(attribs@) is Ok
                &&& pointers@.len() == attribs@.len()
                &&& forall|k: int|
                    0 <= k < attribs@.len() ==> #[trigger] pointers@[k] == pointer_of(
                        attribs@,
                        stride,
                        k,
                    )
            },
            Err(e) => layout_of(attribs@) == Err::<int, LayoutError>(e),
        },
{
    let mut pointers: Vec<AttribPointer> = Vec::new();
    let mut offset: i32 = 0;
    let stride32 = narrow(stride);
    let mut k: usize = 0;
    while k < attribs.len()
        invariant
            k <= attribs.len(),
            stride32 == low_bits_signed(stride as int),
            layout_of(attribs@.take(k as int)) == Ok::<int, LayoutError>(offset as int),
            pointers@.len() == k,
            forall|n: int| 0 <= n < k ==> #[trigger] pointers@[n] == pointer_of(attribs@, stride, n),
        decreases attribs.len() - k,
    {
        let attrib = attribs[k];
        proof {
            assert(attribs@.take(k + 1).drop_last() =~= attribs@.take(k as int));
        }
        let size = narrow(attrib.num_components);
        let past = match component_size(attrib.type_) {
            None => {
                proof {
                    lemma_layout_error_stays(attribs@, k + 1);
                }
                return Err(LayoutError::UnsupportedType);
            },
            Some(bytes) => match size.checked_mul(bytes) {
                None => None,
                Some(taken) => offset.checked_add(taken),
            },
        };
        match past {
            None => {
                proof {
                    lemma_layout_error_stays(attribs@, k + 1);
                }
                return Err(LayoutError::OffsetOverflow);
            },
            Some(next) => {
                pointers.push(
                    AttribPointer {
                        index: index_of(attrib.location),
                        size,
                        type_: attrib.type_,
                        normalised: attrib.normalised,
                        stride: stride32,
                        offset,
                    },
                );
                offset = next;
            },
        }
        k += 1;
    }
    assert(attribs@.take(k as int) =~= attribs@);
    Ok(pointers)
}

/// An error met among the first `n` attributes is the error of the whole
/// list.
proof fn lemma_layout_error_stays(attribs: Seq<AttribInfo>, n: int)
    requires
        0 <= n <= attribs.len(),
        layout_of(attribs.take(n)) is Err,
    ensures
        layout_of(attribs) == layout_of(attribs.take(n)),
    decreases attribs.len() - n,
{
    if n < attribs.len() {
        assert(attribs.take(n + 1).drop_last() =~= attribs.take(n));
        lemma_layout_error_stays(attribs, n + 1);
    } else {
        assert(attribs.take(n) =~= attribs);
    }
}

} // verus!
