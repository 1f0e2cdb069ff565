//! The chunks that a file is made of.

use crate::bytes::{u16_at, u16_of, u32_at, u32_of};
use crate::soundfont::wav::{has_tag, tag_at, RIFF};
use vstd::prelude::*;

verus! {

/// The letters "sfbk".
pub const SFBK: [u8; 4] = [0x73, 0x66, 0x62, 0x6b];

/// The letters "LIST".
pub const LIST: [u8; 4] = [0x4c, 0x49, 0x53, 0x54];

/// The letters "INFO".
pub const INFO: [u8; 4] = [0x49, 0x4e, 0x46, 0x4f];

/// The letters "pdta".
pub const PDTA: [u8; 4] = [0x70, 0x64, 0x74, 0x61];

/// The letters "ifil".
pub const IFIL: [u8; 4] = [0x69, 0x66, 0x69, 0x6c];

/// The letters "iver".
pub const IVER: [u8; 4] = [0x69, 0x76, 0x65, 0x72];

/// The letters "phdr".
pub const PHDR: [u8; 4] = [0x70, 0x68, 0x64, 0x72];

/// The letters "pbag".
pub const PBAG: [u8; 4] = [0x70, 0x62, 0x61, 0x67];

/// The letters "inst".
pub const INST: [u8; 4] = [0x69, 0x6e, 0x73, 0x74];

/// The letters "ibag".
pub const IBAG: [u8; 4] = [0x69, 0x62, 0x61, 0x67];

/// The size that a chunk names.
pub open spec fn chunk_size(b: Seq<u8>, at: int) -> int {
    u32_of(b, at + 4)
}

/// The places of the chunks from `at` on that begin before `end`. A chunk is a tag of four
/// bytes, its size, as many bytes more, and one again where the size is odd.
pub open spec fn chunks(b: Seq<u8>, at: int, end: int) -> Seq<int>
    decreases
            if at > b.len() {
                0
            } else {
                b.len() - at
            },
{
    if at < 0 || at >= end || at + 8 > b.len() {
        Seq::empty()
    } else {
        let size = chunk_size(b, at);
        seq![at] + chunks(b, at + 8 + size + size % 2, end)
    }
}

/// The places of the lists in a file.
pub open spec fn lists(b: Seq<u8>) -> Seq<int> {
    chunks(b, 12, 4 + chunk_size(b, 0))
}

/// The places of the chunks in a list.
pub open spec fn members(b: Seq<u8>, list: int) -> Seq<int> {
    chunks(b, list + 12, list + 4 + chunk_size(b, list))
}

/// The last of some places behind which the tag stands, `by` bytes further on.
pub open spec fn last_with(b: Seq<u8>, places: Seq<int>, by: int, tag: [u8; 4]) -> Option<int>
    decreases places.len(),
{
    if places.len() == 0 {
        None
    } else if places.last() + by + 4 <= b.len() && tag_at(b, places.last() + by, tag) {
        Some(places.last())
    } else {
        last_with(b, places.drop_last(), by, tag)
    }
}

/// What a chunk holds lies in the file. Of the two version chunks only the beginning is
/// read, whatever size they name.
pub open spec fn contained(b: Seq<u8>, at: int) -> bool {
    tag_at(b, at, IFIL) || tag_at(b, at, IVER) || at + 8 + chunk_size(b, at) <= b.len()
}

/// What is read of a list lies in the file.
pub open spec fn list_framed(b: Seq<u8>, list: int) -> bool {
    &&& tag_at(b, list, LIST)
    &&& list + 12 <= b.len() && (tag_at(b, list + 8, INFO) || tag_at(b, list + 8, PDTA))
        ==> forall|k: int|
        0 <= k < members(b, list).len() ==> contained(b, #[trigger] members(b, list)[k])
}

/// The index of the first bag of the `i`th header: each takes `size` bytes, and the index
/// stands `field` bytes behind its beginning.
pub open spec fn bag_index(b: Seq<u8>, headers: int, size: int, field: int, i: int) -> int {
    u16_of(b, headers + 8 + size * i + field)
}

/// The bags between those of the `i`th header and those of the next one are there.
pub open spec fn step_fits(
    b: Seq<u8>,
    headers: int,
    size: int,
    field: int,
    bags: int,
    i: int,
) -> bool {
    let next = bag_index(b, headers, size, field, i + 1);
    bag_index(b, headers, size, field, i) >= next || next <= chunk_size(b, bags) / 4
}

/// The bags of all headers are there. Those of the last header reach to the end.
pub open spec fn bags_fit(b: Seq<u8>, headers: int, size: int, field: int, bags: int) -> bool {
    forall|i: int|
        0 <= i < chunk_size(b, headers) / size - 1 ==> #[trigger] step_fits(
            b,
            headers,
            size,
            field,
            bags,
            i,
        )
}

/// The bags of the presets and of the instruments are there.
pub open spec fn indices_framed(b: Seq<u8>, list: int) -> bool {
    let m = members(b, list);
    &&& last_with(b, m, 0, PHDR) matches Some(headers) ==> (last_with(b, m, 0, PBAG) matches Some(
        bags,
    ) ==> bags_fit(b, headers, 38, 24, bags))
    &&& last_with(b, m, 0, INST) matches Some(headers) ==> (last_with(b, m, 0, IBAG) matches Some(
        bags,
    ) ==> bags_fit(b, headers, 22, 20, bags))
}

/// The chunks of a file stand where they should: it is made of lists, what is read of them
/// lies in the file, and the indices of bags lead to bags.
pub open spec fn well_framed(b: Seq<u8>) -> bool {
    &&& b.len() >= 12
    &&& tag_at(b, 0, RIFF)
    &&& tag_at(b, 8, SFBK)
    &&& forall|k: int| 0 <= k < lists(b).len() ==> list_framed(b, #[trigger] lists(b)[k])
    &&& last_with(b, lists(b), 8, PDTA) matches Some(list) ==> indices_framed(b, list)
}

/// Places as numbers.
pub open spec fn places_of(v: Seq<usize>) -> Seq<int> {
    v.map_values(|x: usize| x as int)
}

fn find_chunks(b: &[u8], from: usize, end: u128) -> (r: Vec<usize>)
    requires
        from <= b@.len(),
    ensures
        places_of(r@) == chunks(b@, from as int, end as int),
        forall|k: int| 0 <= k < r.len() ==> (#[trigger] r@[k]) + 8 <= b@.len(),
{
    let n: usize = b.len();
    let mut out: Vec<usize> = Vec::new();
    let mut at: usize = from;
    assert(places_of(out@) =~= Seq::empty());
    assert(places_of(out@) + chunks(b@, at as int, end as int) =~= chunks(
        b@,
        from as int,
        end as int,
    ));
    while (at as u128) < end && n - at >= 8
        invariant_except_break
            at <= n,
            places_of(out@) + chunks(b@, at as int, end as int) == chunks(
                b@,
                from as int,
                end as int,
            ),
        invariant
            n == b@.len(),
            forall|k: int| 0 <= k < out.len() ==> (#[trigger] out@[k]) + 8 <= n,
        ensures
            places_of(out@) == chunks(b@, from as int, end as int),
        decreases n - at,
    {
        let size: u32 = u32_at(b, at + 4);
        let ghost before = places_of(out@);
        let ghost next = at + 8 + size + size % 2;
        out.push(at);
        assert(places_of(out@) =~= before.push(at as int));
        assert(before + chunks(b@, at as int, end as int) =~= places_of(out@) + chunks(
            b@,
            next,
            end as int,
        ));
        let rest: usize = n - at - 8;
        if size as u64 + (size % 2) as u64 > rest as u64 {
            assert(chunks(b@, next, end as int) =~= Seq::empty());
            assert(places_of(out@) =~= chunks(b@, from as int, end as int));
            break ;
        }
        at = at + 8 + size as usize + (size % 2) as usize;
    }
    assert(places_of(out@) =~= chunks(b@, from as int, end as int));
    out
}

fn find_last(b: &[u8], places: &Vec<usize>, by: usize, tag: [u8; 4]) -> (r: Option<usize>)
    requires
        by <= 8,
        forall|k: int| 0 <= k < places.len() ==> (#[trigger] places@[k]) + 8 <= b@.len(),
    ensures
        r is Some <==> last_with(b@, places_of(places@), by as int, tag) is Some,
        r matches Some(p) ==> last_with(b@, places_of(places@), by as int, tag) == Some(p as int)
            && p + by + 4 <= b@.len() && tag_at(b@, p + by, tag) && places@.contains(p),
{
    let ghost all = places_of(places@);
    let mut i: usize = places.len();
    assert(all.take(i as int) =~= all);
    while i > 0
        invariant
            by <= 8,
            i <= places.len(),
            all == places_of(places@),
            forall|k: int| 0 <= k < places.len() ==> (#[trigger] places@[k]) + 8 <= b@.len(),
            last_with(b@, all, by as int, tag) == last_with(
                b@,
                all.take(i as int),
                by as int,
                tag,
            ),
        decreases i,
    {
        let p: usize = places[i - 1];
        assert(all.take(i as int).last() == p);
        assert(all.take(i as int).drop_last() =~= all.take(i - 1));
        if b.len() - p >= by + 4 && has_tag(b, p + by, tag) {
            assert(places@[i - 1] == p);
            return Some(p);
        }
        i = i - 1;
    }
    None
}

fn check_bags(b: &[u8], headers: usize, size: usize, field: usize, bags: usize) -> (r: bool)
    requires
        1 <= size,
        field + 2 <= size <= 38,
        headers + 8 + chunk_size(b@, headers as int) <= b@.len(),
        bags + 8 <= b@.len(),
    ensures
        r == bags_fit(b@, headers as int, size as int, field as int, bags as int),
{
    let len: usize = b.len();
    let n: usize = u32_at(b, headers + 4) as usize / size;
    let count: u32 = u32_at(b, bags + 4) / 4;
    if n == 0 {
        return true;
    }
    let mut i: usize = 0;
    let mut at: usize = headers + 8;
    assert(size * n <= chunk_size(b@, headers as int)) by (nonlinear_arith)
        requires
            size >= 1,
            n == chunk_size(b@, headers as int) / size as int,
    ;
    assert(size * 0 == 0) by (nonlinear_arith);
    while i < n - 1
        invariant
            0 <= i <= n - 1,
            1 <= size,
            field + 2 <= size <= 38,
            at == headers + 8 + size * i,
            headers + 8 + size * n <= b@.len(),
            b@.len() == len,
            n == chunk_size(b@, headers as int) / size as int,
            count == chunk_size(b@, bags as int) / 4,
            forall|j: int|
                0 <= j < i ==> #[trigger] step_fits(
                    b@,
                    headers as int,
                    size as int,
                    field as int,
                    bags as int,
                    j,
                ),
        decreases n - i,
    {
        assert(size * (i + 1) == size * i + size) by (nonlinear_arith);
        assert(size * (i + 2) == size * i + size + size) by (nonlinear_arith);
        assert(size * (i + 2) <= size * n) by (nonlinear_arith)
            requires
                i + 2 <= n,
                size >= 1,
        ;
        let here: u16 = u16_at(b, at + field);
        let next: u16 = u16_at(b, at + size + field);
        if here < next && next as u32 > count {
            assert(!step_fits(
                b@,
                headers as int,
                size as int,
                field as int,
                bags as int,
                i as int,
            ));
            return false;
        }
        assert(step_fits(
            b@,
            headers as int,
            size as int,
            field as int,
            bags as int,
            i as int,
        ));
        at = at + size;
        i = i + 1;
    }
    true
}

fn check_list(b: &[u8], list: usize) -> (r: bool)
    requires
        list + 8 <= b@.len(),
    ensures
        r == list_framed(b@, list as int),
{
    if !has_tag(b, list, LIST) {
        return false;
    }
    if b.len() - list < 12 || !(has_tag(b, list + 8, INFO) || has_tag(b, list + 8, PDTA)) {
        return true;
    }
    let len: usize = b.len();
    let end: u128 = list as u128 + 4 + u32_at(b, list + 4) as u128;
    let found = find_chunks(b, list + 12, end);
    let ghost m = members(b@, list as int);
    let mut k: usize = 0;
    while k < found.len()
        invariant
            k <= found.len(),
            places_of(found@) == m,
            m == members(b@, list as int),
            forall|j: int| 0 <= j < found.len() ==> (#[trigger] found@[j]) + 8 <= b@.len(),
            forall|j: int| 0 <= j < k ==> contained(b@, #[trigger] m[j]),
            list + 12 <= b@.len(),
            len == b@.len(),
            tag_at(b@, list + 8, INFO) || tag_at(b@, list + 8, PDTA),
        decreases found.len() - k,
    {
        let at: usize = found[k];
        assert(m[k as int] == at);
        let fits = u32_at(b, at + 4) as u64 <= (len - at - 8) as u64;
        if !fits && !has_tag(b, at, IFIL) && !has_tag(b, at, IVER) {
            assert(!contained(b@, m[k as int]));
            return false;
        }
        k = k + 1;
    }
    true
}

fn check_indices(b: &[u8], list: usize) -> (r: bool)
    requires
        list + 12 <= b@.len(),
        tag_at(b@, list + 8, PDTA),
        list_framed(b@, list as int),
    ensures
        r == indices_framed(b@, list as int),
{
    let len: usize = b.len();
    let end: u128 = list as u128 + 4 + u32_at(b, list + 4) as u128;
    let found = find_chunks(b, list + 12, end);
    proof {
        members_are_contained(b@, list as int, found@);
    }
    let presets = match (find_last(b, &found, 0, PHDR), find_last(b, &found, 0, PBAG)) {
        (Some(headers), Some(bags)) => check_bags(b, headers, 38, 24, bags),
        _ => true,
    };
    let instruments = match (find_last(b, &found, 0, INST), find_last(b, &found, 0, IBAG)) {
        (Some(headers), Some(bags)) => check_bags(b, headers, 22, 20, bags),
        _ => true,
    };
    presets && instruments
}

proof fn members_are_contained(b: Seq<u8>, list: int, found: Seq<usize>)
    requires
        list + 12 <= b.len(),
        tag_at(b, list + 8, PDTA),
        list_framed(b, list),
        places_of(found) == members(b, list),
    ensures
        forall|p: usize| #[trigger] found.contains(p) ==> contained(b, p as int),
{
    assert forall|p: usize| #[trigger] found.contains(p) implies contained(b, p as int) by {
        let k = choose|k: int| 0 <= k < found.len() && found[k] == p;
        assert(members(b, list)[k] == p);
    }
}

/// Whether the chunks of a file stand where they should.
pub fn is_well_framed(b: &[u8]) -> (r: bool)
    ensures
        r == well_framed(b@),
{
    if b.len() < 12 || !has_tag(b, 0, RIFF) || !has_tag(b, 8, SFBK) {
        return false;
    }
    let end: u128 = 4 + u32_at(b, 4) as u128;
    let found = find_chunks(b, 12, end);
    let mut k: usize = 0;
    while k < found.len()
        invariant
            k <= found.len(),
            places_of(found@) == lists(b@),
            forall|j: int| 0 <= j < found.len() ==> (#[trigger] found@[j]) + 8 <= b@.len(),
            forall|j: int| 0 <= j < k ==> list_framed(b@, #[trigger] lists(b@)[j]),
        decreases found.len() - k,
    {
        assert(lists(b@)[k as int] == found@[k as int]);
        if !check_list(b, found[k]) {
            return false;
        }
        k = k + 1;
    }
    match find_last(b, &found, 8, PDTA) {
        Some(list) => {
            assert(list_framed(b@, list as int)) by {
                let j = choose|j: int| 0 <= j < found@.len() && found@[j] == list;
                assert(lists(b@)[j] == list);
            }
            check_indices(b, list)
        },
        None => true,
    }
}


/// Chunks lie one behind the other: each begins where the one before ends, a byte later
/// where the size of that one is odd, and all of them before the end.
pub proof fn chunks_lie_in_a_row(b: Seq<u8>, at: int, end: int, k: int)
    requires
        0 <= k < chunks(b, at, end).len(),
    ensures
        chunks(b, at, end)[0] == at,
        at <= chunks(b, at, end)[k] < end,
        chunks(b, at, end)[k] + 8 <= b.len(),
        ({
            let place = chunks(b, at, end)[k];
            let size = u32_of(b, place + 4);
            let next = place + 8 + if size % 2 == 0 {
                size
            } else {
                size + 1
            };
            if k + 1 < chunks(b, at, end).len() {
                chunks(b, at, end)[k + 1] == next
            } else {
                next >= end || next + 8 > b.len()
            }
        }),
    decreases k,
{
    let size = u32_of(b, at + 4);
    let next = at + 8 + size + size % 2;
    let rest = chunks(b, next, end);
    assert(chunks(b, at, end) == seq![at] + rest);
    if k > 0 {
        chunks_lie_in_a_row(b, next, end, k - 1);
        assert(chunks(b, at, end)[k] == rest[k - 1]);
        if k + 1 < chunks(b, at, end).len() {
            assert(chunks(b, at, end)[k + 1] == rest[k]);
        }
    } else if rest.len() > 0 {
        assert(rest[0] == next);
        assert(chunks(b, at, end)[1] == rest[0]);
    }
}

/// A file whose chunks stand where they should begins with the marks of such a file, is made
/// of lists, and holds all of the chunks in its lists of facts and of presets, but for the
/// two version chunks.
pub proof fn framed_files_hold_their_chunks(b: Seq<u8>, l: int, k: int)
    requires
        well_framed(b),
        0 <= l < chunks(b, 12, 4 + u32_of(b, 4)).len(),
    ensures
        b.len() >= 12,
        b[0] == 0x52 && b[1] == 0x49 && b[2] == 0x46 && b[3] == 0x46,
        b[8] == 0x73 && b[9] == 0x66 && b[10] == 0x62 && b[11] == 0x6b,
        ({
            let list = chunks(b, 12, 4 + u32_of(b, 4))[l];
            let inner = chunks(b, list + 12, list + 4 + u32_of(b, list + 4));
            let at = inner[k];
            &&& b[list] == 0x4c && b[list + 1] == 0x49 && b[list + 2] == 0x53 && b[list + 3] == 0x54
            &&& 0 <= k < inner.len() && list + 12 <= b.len() && b[list + 8] == 0x70 && b[list + 9]
                == 0x64 && b[list + 10] == 0x74 && b[list + 11] == 0x61 && b[at] != 0x69 ==> at + 8
                + u32_of(b, at + 4) <= b.len()
            &&& 0 <= k < inner.len() && list + 12 <= b.len() && b[list + 8] == 0x49 && b[list + 9]
                == 0x4e && b[list + 10] == 0x46 && b[list + 11] == 0x4f && b[at] != 0x69 ==> at + 8
                + u32_of(b, at + 4) <= b.len()
        }),
{
    let list = chunks(b, 12, 4 + u32_of(b, 4))[l];
    assert(list == lists(b)[l]);
    assert(list_framed(b, list));
    let inner = chunks(b, list + 12, list + 4 + u32_of(b, list + 4));
    assert(inner == members(b, list));
    if 0 <= k < inner.len() {
        let at = members(b, list)[k];
        assert(at == inner[k]);
    }
}

/// In a file whose chunks stand where they should, the index that a preset or an instrument
/// has in the bags leads to a bag wherever it is above the one before it.
pub proof fn bags_are_there(b: Seq<u8>, list: int, headers: int, bags: int, i: int)
    requires
        well_framed(b),
        last_with(b, lists(b), 8, PDTA) == Some(list),
        0 <= i,
    ensures
        ({
            let m = members(b, list);
            let count = u32_of(b, bags + 4) / 4;
            let here = u16_of(b, headers + 8 + 38 * i + 24);
            let next = u16_of(b, headers + 8 + 38 * (i + 1) + 24);
            last_with(b, m, 0, PHDR) == Some(headers) && last_with(b, m, 0, PBAG) == Some(bags)
                && 38 * (i + 2) <= u32_of(b, headers + 4) && here < next ==> next <= count
        }),
        ({
            let m = members(b, list);
            let count = u32_of(b, bags + 4) / 4;
            let here = u16_of(b, headers + 8 + 22 * i + 20);
            let next = u16_of(b, headers + 8 + 22 * (i + 1) + 20);
            last_with(b, m, 0, INST) == Some(headers) && last_with(b, m, 0, IBAG) == Some(bags)
                && 22 * (i + 2) <= u32_of(b, headers + 4) && here < next ==> next <= count
        }),
{
    assert(indices_framed(b, list));
    let m = members(b, list);
    if last_with(b, m, 0, PHDR) == Some(headers) && last_with(b, m, 0, PBAG) == Some(bags) && 38
        * (i + 2) <= u32_of(b, headers + 4) {
        assert(bags_fit(b, headers, 38, 24, bags));
        assert(step_fits(b, headers, 38, 24, bags, i));
    }
    if last_with(b, m, 0, INST) == Some(headers) && last_with(b, m, 0, IBAG) == Some(bags) && 22
        * (i + 2) <= u32_of(b, headers + 4) {
        assert(bags_fit(b, headers, 22, 20, bags));
        assert(step_fits(b, headers, 22, 20, bags, i));
    }
}

/// The last of the chunks with a tag is the one that counts.
pub proof fn last_chunk_counts(b: Seq<u8>, places: Seq<int>, by: int, tag: [u8; 4], k: int)
    requires
        0 <= k < places.len(),
        places[k] + by + 4 <= b.len(),
        tag_at(b, places[k] + by, tag),
    ensures
        last_with(b, places, by, tag) is Some,
        (forall|j: int|
            k < j < places.len() ==> !tag_at(b, #[trigger] places[j] + by, tag)) ==> last_with(
            b,
            places,
            by,
            tag,
        ) == Some(places[k]),
    decreases places.len(),
{
    if k < places.len() - 1 {
        last_chunk_counts(b, places.drop_last(), by, tag, k);
        if forall|j: int| k < j < places.len() ==> !tag_at(b, #[trigger] places[j] + by, tag) {
            assert(!tag_at(b, places[places.len() - 1] + by, tag));
            assert forall|j: int| k < j < places.len() - 1 implies !tag_at(
                b,
                #[trigger] places.drop_last()[j] + by,
                tag,
            ) by {
                assert(!tag_at(b, places[j] + by, tag));
            }
        }
    }
}

/// A file that begins with the marks of such a file and holds no chunk is framed well.
pub proof fn empty_files_are_framed(b: Seq<u8>)
    requires
        b.len() >= 12,
        b[0] == 0x52 && b[1] == 0x49 && b[2] == 0x46 && b[3] == 0x46,
        b[8] == 0x73 && b[9] == 0x66 && b[10] == 0x62 && b[11] == 0x6b,
        u32_of(b, 4) <= 8 || b.len() < 20,
    ensures
        well_framed(b),
{
    assert(lists(b).len() == 0);
}

} // verus!
