//! Choices the Vulkan renderer makes from what the driver reports: which
//! memory type to allocate from and which queue families to use.
use vstd::prelude::*;

verus! {

/// Queue family flag: the family supports graphics operations.
pub const QUEUE_GRAPHICS_BIT: u32 = 1;

/// Queue family flag: the family supports transfer operations.
pub const QUEUE_TRANSFER_BIT: u32 = 4;

/// The largest number of memory types a device reports.
pub const MAX_MEMORY_TYPES: usize = 32;

/// Memory type `i`, whose property flags are `flags`, is allowed by the
/// resource's `type_filter` and has every property in `required`.
pub open spec fn memory_type_suitable(type_filter: u32, flags: u32, required: u32, i: u32) -> bool {
    &&& type_filter & (1u32 << i) != 0
    &&& flags & required == required
}

/// The first memory type, among the device's types (`memory_type_flags[i]`
/// holds the property flags of type `i`), that the resource's `type_filter`
/// allows and that has all the `required` properties.
pub fn find_memory_type(type_filter: u32, memory_type_flags: &[u32], required: u32) -> (r: Option<
    u32,
>)
    requires
        memory_type_flags@.len() <= MAX_MEMORY_TYPES,
    ensures
        match r {
            Some(i) => {
                &&& i < memory_type_flags@.len()
                &&& memory_type_suitable(type_filter, memory_type_flags@[i as int], required, i)
                &&& forall|j: u32|
                    j < i ==> !memory_type_suitable(
                        type_filter,
                        #[trigger] memory_type_flags@[j as int],
                        required,
                        j,
                    )
            },
            None => forall|j: u32|
                j < memory_type_flags@.len() ==> !memory_type_suitable(
                    type_filter,
                    #[trigger] memory_type_flags@[j as int],
                    required,
                    j,
                ),
        },
{
    let count = memory_type_flags.len() as u32;
    let mut i: u32 = 0;
    while i < count
        invariant
            count == memory_type_flags@.len(),
            count <= 32,
            i <= count,
            forall|j: u32|
                j < i ==> !memory_type_suitable(
                    type_filter,
                    #[trigger] memory_type_flags@[j as int],
                    required,
                    j,
                ),
        decreases count - i,
    {
        let flags = memory_type_flags[i as usize];
        if type_filter & (1u32 << i) != 0 && flags & required == required {
            return Some(i);
        }
        i = i + 1;
    }
    None
}

/// A queue family of a physical device, as the driver reports it.
#[derive(Debug, Clone, Copy, PartialEq, Eq, Structural)]
pub struct QueueFamily {
    /// Which physical device (its position in the device list).
    pub device: usize,
    /// The family's index within its device.
    pub index: u32,
    /// The family's capability flags.
    pub flags: u32,
    /// The family can present to the window's surface.
    pub present: bool,
}

/// The graphics and transfer families chosen after looking at the first `n`
/// families: the first family that does graphics and can present becomes the
/// graphics family; a family that does transfer but not graphics becomes the
/// transfer family, unless it was just taken for graphics.
pub open spec fn queue_scan(fams: Seq<QueueFamily>, n: nat) -> (Option<u32>, Option<u32>)
    decreases n,
{
    if n == 0 {
        (None, None)
    } else {
        let (g, t) = queue_scan(fams, (n - 1) as nat);
        let f = fams[n - 1];
        if g is None && f.flags & QUEUE_GRAPHICS_BIT == QUEUE_GRAPHICS_BIT && f.present {
            (Some(f.index), t)
        } else if t is None && f.flags & QUEUE_TRANSFER_BIT == QUEUE_TRANSFER_BIT && f.flags
            & QUEUE_GRAPHICS_BIT != QUEUE_GRAPHICS_BIT {
            (g, Some(f.index))
        } else {
            (g, t)
        }
    }
}

/// Both families are chosen after the first `n` families.
pub open spec fn both_found(fams: Seq<QueueFamily>, n: nat) -> bool {
    queue_scan(fams, n).0 is Some && queue_scan(fams, n).1 is Some
}

/// Chooses a graphics family and a transfer family, looking at the families
/// of all devices in order (`families` lists them device by device). Returns
/// the device of the family at which both are known, with the two family
/// indices; `None` when the list runs out first.
pub fn find_queue_families(families: &[QueueFamily]) -> (r: Option<(usize, u32, u32)>)
    ensures
        match r {
            Some((dev, g, t)) => exists|n: nat|
                {
                    &&& 1 <= n <= families@.len()
                    &&& #[trigger] both_found(families@, n)
                    &&& forall|m: nat| m < n ==> !#[trigger] both_found(families@, m)
                    &&& dev == families@[n - 1].device
                    &&& queue_scan(families@, n) == (Some(g), Some(t))
                },
            None => forall|m: nat| m <= families@.len() ==> !#[trigger] both_found(families@, m),
        },
{
    let mut graphics: Option<u32> = None;
    let mut transfer: Option<u32> = None;
    let mut i: usize = 0;
    while i < families.len()
        invariant
            0 <= i <= families@.len(),
            (graphics, transfer) == queue_scan(families@, i as nat),
            forall|m: nat| m <= i ==> !#[trigger] both_found(families@, m),
        decreases families@.len() - i,
    {
        let f = families[i];
        if graphics.is_none() && f.flags & QUEUE_GRAPHICS_BIT == QUEUE_GRAPHICS_BIT && f.present {
            graphics = Some(f.index);
        } else if transfer.is_none() && f.flags & QUEUE_TRANSFER_BIT == QUEUE_TRANSFER_BIT
            && f.flags & QUEUE_GRAPHICS_BIT != QUEUE_GRAPHICS_BIT {
            transfer = Some(f.index);
        }
        i = i + 1;
        match (graphics, transfer) {
            (Some(g), Some(t)) => {
                assert(both_found(families@, i as nat));
                return Some((f.device, g, t));
            },
            _ => {
                assert(!both_found(families@, i as nat));
            },
        }
    }
    None
}

/// A memory type is suitable exactly when the filter has its bit set and
/// its property flags contain every required property. Extra properties
/// never disqualify a type: adding flags keeps a suitable type suitable, and
/// a type with the required flags plus any others is suitable whenever the
/// filter allows it.
pub proof fn lemma_memory_type_suitable_means(
    type_filter: u32,
    flags: u32,
    required: u32,
    extra: u32,
    i: u32,
)
    requires
        i < 32,
    ensures
        memory_type_suitable(type_filter, flags, required, i) <==> ((type_filter >> i) & 1 == 1
            && flags | required == flags),
        memory_type_suitable(type_filter, flags, required, i) ==> memory_type_suitable(
            type_filter,
            flags | extra,
            required,
            i,
        ),
        (type_filter >> i) & 1 == 1 ==> memory_type_suitable(
            type_filter,
            required | extra,
            required,
            i,
        ),
{
    assert((type_filter & (1u32 << i) != 0) <==> ((type_filter >> i) & 1 == 1)) by (bit_vector)
        requires
            i < 32,
    ;
    assert((flags & required == required) <==> (flags | required == flags)) by (bit_vector);
    assert(flags & required == required ==> (flags | extra) & required == required)
        by (bit_vector);
    assert((required | extra) & required == required) by (bit_vector);
}

/// What looking at one more family does to the choice: a family that does
/// graphics and can present becomes the graphics family if none is chosen;
/// otherwise a family that does transfer and not graphics becomes the
/// transfer family if none is chosen, whatever other capabilities it has.
/// A family once chosen stays chosen.
pub proof fn lemma_queue_scan_step(fams: Seq<QueueFamily>, n: nat)
    requires
        n < fams.len(),
    ensures
        ({
            let (g, t) = queue_scan(fams, n);
            let f = fams[n as int];
            let next = queue_scan(fams, n + 1);
            &&& g is None && f.flags & QUEUE_GRAPHICS_BIT != 0 && f.present ==> next.0 == Some(
                f.index,
            )
            &&& t is None && f.flags & QUEUE_TRANSFER_BIT != 0 && f.flags & QUEUE_GRAPHICS_BIT
                == 0 ==> next.1 == Some(f.index)
            &&& g is Some ==> next.0 == g
            &&& t is Some ==> next.1 == t
            &&& f.flags & QUEUE_TRANSFER_BIT == 0 ==> next.1 == t
        }),
{
    let x = fams[n as int].flags;
    assert((x & 1u32 != 0) <==> (x & 1u32 == 1u32)) by (bit_vector);
    assert((x & 4u32 != 0) <==> (x & 4u32 == 4u32)) by (bit_vector);
}

} // verus!
