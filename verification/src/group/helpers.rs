use vstd::prelude::*;

use crate::error::{ContractError, ErrorView};
use crate::group::msg::MemberNamed;
use crate::text::{
    byte_length, chars_of, lemma_seq_le_lt, lemma_seq_lt_irreflexive, lemma_seq_lt_trichotomy, seq_le,
    seq_lt, str_lt,
};

verus! {

/// `<[T]>::swap` exchanges the elements at two positions; it panics when a
/// position is out of bounds, which the `requires` rules out.
pub assume_specification<T>[ <[T]>::swap ](s: &mut [T], a: usize, b: usize)
    requires
        a < old(s)@.len(),
        b < old(s)@.len(),
    ensures
        final(s)@ == old(s)@.update(a as int, old(s)@[b as int]).update(
            b as int,
            old(s)@[a as int],
        ),
;

// ---------------------------------------------------------------------------
// Names
// ---------------------------------------------------------------------------

/// Characters a name may hold: ASCII digits, ASCII lowercase letters, `.`,
/// `-` and `_`.
pub open spec fn allowed_char(c: char) -> bool {
    ||| ('0' as u32) <= (c as u32) <= ('9' as u32)
    ||| ('a' as u32) <= (c as u32) <= ('z' as u32)
    ||| c == '.'
    ||| c == '-'
    ||| c == '_'
}

/// The first character of `s` that a name may not hold.
pub open spec fn first_invalid(s: Seq<char>) -> Option<char>
    decreases s.len(),
{
    if s.len() == 0 {
        None
    } else if !allowed_char(s[0]) {
        Some(s[0])
    } else {
        first_invalid(s.drop_first())
    }
}

/// What checking the name `s` against the bounds on its length in bytes
/// gives: first the length, then the characters.
pub open spec fn name_verdict(s: Seq<char>, min_length: u64, max_length: u64) -> Result<
    (),
    ErrorView,
> {
    let length = byte_length(s);
    if length < min_length {
        Err(ErrorView::NameTooShort { length, min_length })
    } else if length > max_length {
        Err(ErrorView::NameTooLong { length, max_length })
    } else {
        match first_invalid(s) {
            None => Ok(()),
            Some(c) => Err(ErrorView::InvalidCharacter { c }),
        }
    }
}

/// Whether `res` is what `name_verdict` gives.
pub open spec fn matches_verdict(res: Result<(), ContractError>, verdict: Result<(), ErrorView>) -> bool {
    match verdict {
        Ok(()) => res is Ok,
        Err(v) => res matches Err(e) && e@ == v,
    }
}

/// `c` is an ASCII digit, an ASCII lowercase letter, `.`, `-` or `_`.
pub open spec fn is_name_character(c: char) -> bool {
    ||| 48 <= (c as u32) <= 57
    ||| 97 <= (c as u32) <= 122
    ||| (c as u32) == 46
    ||| (c as u32) == 45
    ||| (c as u32) == 95
}

/// `first_invalid` finds nothing exactly when every character is allowed, and
/// what it finds is a character of `s` that is not allowed, all characters
/// before its first occurrence being allowed.
proof fn lemma_first_invalid(s: Seq<char>)
    ensures
        first_invalid(s) is None <==> forall|i: int| 0 <= i < s.len() ==> allowed_char(#[trigger] s[i]),
        first_invalid(s) matches Some(c) ==> exists|k: int|
            0 <= k < s.len() && #[trigger] s[k] == c && !allowed_char(c) && forall|i: int|
                0 <= i < k ==> allowed_char(#[trigger] s[i]),
    decreases s.len(),
{
    if s.len() > 0 {
        let t = s.drop_first();
        lemma_first_invalid(t);
        assert forall|i: int| 0 < i < s.len() implies s[i] == t[i - 1] by {}
        if allowed_char(s[0]) {
            if first_invalid(t) is None {
                assert forall|i: int| 0 <= i < s.len() implies allowed_char(#[trigger] s[i]) by {
                    if i > 0 {
                        assert(allowed_char(t[i - 1]));
                    }
                }
            } else {
                let c = first_invalid(t)->0;
                let k = choose|k: int|
                    0 <= k < t.len() && #[trigger] t[k] == c && !allowed_char(c) && forall|i: int|
                        0 <= i < k ==> allowed_char(#[trigger] t[i]);
                assert(s[k + 1] == c);
                assert forall|i: int| 0 <= i < k + 1 implies allowed_char(#[trigger] s[i]) by {
                    if i > 0 {
                        assert(allowed_char(t[i - 1]));
                    }
                }
                assert(!allowed_char(s[k + 1]));
            }
        } else {
            assert(s[0] == first_invalid(s)->0);
        }
    }
}

/// A name is accepted only if every character of it is an ASCII digit, an
/// ASCII lowercase letter, `.`, `-` or `_`; a refused character is one of
/// the name's characters outside that set, and the first such one.
pub proof fn lemma_names_hold_only_name_characters(s: Seq<char>, min_length: u64, max_length: u64)
    ensures
        name_verdict(s, min_length, max_length) is Ok ==> forall|i: int|
            0 <= i < s.len() ==> is_name_character(#[trigger] s[i]),
        name_verdict(s, min_length, max_length) matches Err(ErrorView::InvalidCharacter { c }) ==> exists|k: int|
            0 <= k < s.len() && #[trigger] s[k] == c && !is_name_character(c) && forall|i: int|
                0 <= i < k ==> is_name_character(#[trigger] s[i]),
{
    lemma_first_invalid(s);
}

/// A name of allowed length whose every character is an ASCII digit, an
/// ASCII lowercase letter, `.`, `-` or `_` is accepted.
pub proof fn lemma_well_formed_names_accepted(s: Seq<char>, min_length: u64, max_length: u64)
    requires
        min_length <= byte_length(s) <= max_length,
        forall|i: int| 0 <= i < s.len() ==> is_name_character(#[trigger] s[i]),
    ensures
        name_verdict(s, min_length, max_length) is Ok,
{
    lemma_first_invalid(s);
    assert(('0' as u32) == 48 && ('9' as u32) == 57 && ('a' as u32) == 97 && ('z' as u32) == 122);
    assert forall|i: int| 0 <= i < s.len() implies allowed_char(#[trigger] s[i]) by {
        assert(is_name_character(s[i]));
        vstd::utf8::char_u32_cast(s[i], s[i] as u32);
        vstd::utf8::char_u32_cast('.', '.' as u32);
        vstd::utf8::char_u32_cast('-', '-' as u32);
        vstd::utf8::char_u32_cast('_', '_' as u32);
        assert(('.' as u32) == 46 && ('-' as u32) == 45 && ('_' as u32) == 95);
    }
}

/// Whether a name may not hold `c`.
pub fn invalid_char(c: char) -> (r: bool)
    ensures
        r == !allowed_char(c),
{
    let u = c as u32;
    let is_valid = ('0' as u32 <= u && u <= '9' as u32) || ('a' as u32 <= u && u <= 'z' as u32) || (
    c == '.' || c == '-' || c == '_');
    !is_valid
}

/// Checks `name` against the bounds `min_length..=max_length` on its length in
/// bytes, then against the allowed characters.
pub fn check_name(name: &str, min_length: u64, max_length: u64) -> (res: Result<(), ContractError>)
    ensures
        matches_verdict(res, name_verdict(name@, min_length, max_length)),
{
    let length = name.len() as u64;
    if length < min_length {
        Err(ContractError::NameTooShort { length, min_length })
    } else if length > max_length {
        Err(ContractError::NameTooLong { length, max_length })
    } else {
        let cs = chars_of(name);
        let mut i: usize = 0;
        assert(name@.skip(0) =~= name@);
        while i < cs.len()
            invariant
                cs@ == name@,
                i <= cs.len(),
                min_length <= name.len() as u64 <= max_length,
                first_invalid(name@) == first_invalid(name@.skip(i as int)),
            decreases cs.len() - i,
        {
            if invalid_char(cs[i]) {
                return Err(ContractError::InvalidCharacter { c: cs[i] });
            }
            assert(name@.skip(i as int).drop_first() =~= name@.skip(i + 1));
            i = i + 1;
        }
        Ok(())
    }
}

const MIN_NAME_LENGTH: u64 = 3;

const MAX_NAME_LENGTH: u64 = 64;

/// validate_name returns an error if the name is invalid
/// (we require 3-64 lowercase ascii letters, numbers, or . - _)
pub fn validate_name(name: &str) -> (res: Result<(), ContractError>)
    ensures
        matches_verdict(res, name_verdict(name@, 3, 64)),
{
    check_name(name, MIN_NAME_LENGTH, MAX_NAME_LENGTH)
}

// ---------------------------------------------------------------------------
// Unique members
// ---------------------------------------------------------------------------

/// Every address comes no later than the addresses after it.
pub open spec fn addr_sorted(s: Seq<MemberNamed>) -> bool {
    forall|i: int, j: int| 0 <= i < j < s.len() ==> seq_le(#[trigger] s[i].addr@, #[trigger] s[j].addr@)
}

/// No two members share an address.
pub open spec fn distinct_addrs(s: Seq<MemberNamed>) -> bool {
    forall|i: int, j: int| 0 <= i < j < s.len() ==> #[trigger] s[i].addr@ != #[trigger] s[j].addr@
}

/// `after` holds the members of `before`, the one at position `k` coming from
/// position `perm[k]` (`inv` is the inverse map), and members with the same
/// address keep their relative order.
pub open spec fn stable_rearrangement(
    before: Seq<MemberNamed>,
    after: Seq<MemberNamed>,
    perm: Seq<int>,
    inv: Seq<int>,
) -> bool {
    &&& after.len() == before.len()
    &&& perm.len() == before.len()
    &&& inv.len() == before.len()
    &&& forall|k: int|
        0 <= k < after.len() ==> 0 <= #[trigger] perm[k] < before.len() && after[k]
            == before[perm[k]] && inv[perm[k]] == k
    &&& forall|i: int| 0 <= i < before.len() ==> 0 <= #[trigger] inv[i] < after.len() && perm[inv[i]] == i
    &&& forall|k: int, l: int|
        0 <= k < l < after.len() && after[k].addr@ == after[l].addr@ ==> #[trigger] perm[k]
            < #[trigger] perm[l]
}

/// `after` is `before` sorted by address, members with equal addresses in
/// their original order.
pub open spec fn stable_sort_by_addr(before: Seq<MemberNamed>, after: Seq<MemberNamed>) -> bool {
    &&& addr_sorted(after)
    &&& exists|perm: Seq<int>, inv: Seq<int>| stable_rearrangement(before, after, perm, inv)
}

/// Sorts `members` by address, stably, by insertion.
fn sort_by_addr(members: &mut [MemberNamed])
    ensures
        stable_sort_by_addr(old(members)@, final(members)@),
{
    let n = members.len();
    let ghost orig = members@;
    let ghost mut perm: Seq<int> = Seq::new(n as nat, |k: int| k);
    let ghost mut inv: Seq<int> = Seq::new(n as nat, |k: int| k);
    let mut i: usize = 0;
    while i < n
        invariant
            n == members@.len(),
            n == orig.len(),
            i <= n,
            stable_rearrangement(orig, members@, perm, inv),
            forall|p: int, q: int|
                0 <= p < q < i ==> seq_le(#[trigger] members@[p].addr@, #[trigger] members@[q].addr@),
        decreases n - i,
    {
        let mut j: usize = i;
        while j > 0 && str_lt(members[j].addr.as_str(), members[j - 1].addr.as_str())
            invariant
                n == members@.len(),
                n == orig.len(),
                j <= i < n,
                stable_rearrangement(orig, members@, perm, inv),
                forall|p: int, q: int|
                    0 <= p < q <= i && p != j && q != j ==> seq_le(
                        #[trigger] members@[p].addr@,
                        #[trigger] members@[q].addr@,
                    ),
                forall|q: int|
                    j < q <= i ==> seq_lt(members@[j as int].addr@, #[trigger] members@[q].addr@),
            decreases j,
        {
            let ghost s = members@;
            let ghost a = s[j - 1].addr@;
            let ghost b = s[j as int].addr@;
            proof {
                lemma_seq_lt_irreflexive(b);
                assert(a != b);
                let old_perm = perm;
                let old_inv = inv;
                perm = old_perm.update(j - 1, old_perm[j as int]).update(j as int, old_perm[j - 1]);
                inv = old_inv.update(old_perm[j - 1], j as int).update(old_perm[j as int], j - 1);
            }
            members.swap(j - 1, j);
            proof {
                let t = members@;
                assert(forall|k: int|
                    0 <= k < n && k != j - 1 && k != j ==> #[trigger] t[k] == s[k]);
                assert(t[j - 1] == s[j as int]);
                assert(t[j as int] == s[j - 1]);
                assert forall|k: int, l: int|
                    0 <= k < l < n && t[k].addr@ == t[l].addr@ implies #[trigger] perm[k]
                    < #[trigger] perm[l] by {
                    let ok = if k == j - 1 { j as int } else if k == j { j - 1 } else { k };
                    let ol = if l == j - 1 { j as int } else if l == j { j - 1 } else { l };
                    assert(t[k] == s[ok]);
                    assert(t[l] == s[ol]);
                    if !(k == j - 1 && l == j) {
                        assert(ok < ol);
                    }
                }
                assert forall|p: int, q: int|
                    0 <= p < q <= i && p != j - 1 && q != j - 1 implies seq_le(
                    #[trigger] t[p].addr@,
                    #[trigger] t[q].addr@,
                ) by {
                    let op = if p == j { j - 1 } else { p };
                    let oq = if q == j { j - 1 } else { q };
                    assert(t[p] == s[op]);
                    assert(t[q] == s[oq]);
                }
                assert forall|q: int| j - 1 < q <= i implies seq_lt(
                    t[j - 1].addr@,
                    #[trigger] t[q].addr@,
                ) by {
                    if q > j {
                        assert(t[q] == s[q]);
                    }
                }
            }
            j = j - 1;
        }
        proof {
            let t = members@;
            assert forall|p: int, q: int|
                0 <= p < q <= i implies seq_le(#[trigger] t[p].addr@, #[trigger] t[q].addr@) by {
                if q == j {
                    if p < j - 1 {
                        lemma_seq_le_lt(t[p].addr@, t[j - 1].addr@, t[q].addr@);
                    }
                } else if p == j {
                    lemma_seq_lt_trichotomy(t[p].addr@, t[q].addr@);
                }
            }
        }
        i = i + 1;
    }
    proof {
        assert(stable_rearrangement(orig, members@, perm, inv));
    }
}

/// Sorting by address leaves a sequence that is already sorted as it is, so
/// `validate_unique_members` on its own output changes nothing.
pub proof fn lemma_sorted_input_unchanged(before: Seq<MemberNamed>, after: Seq<MemberNamed>)
    requires
        addr_sorted(before),
        stable_sort_by_addr(before, after),
    ensures
        after == before,
{
    let (perm, inv) = choose|perm: Seq<int>, inv: Seq<int>|
        stable_rearrangement(before, after, perm, inv);
    let n = before.len();
    assert forall|k: int| 0 <= k < n implies #[trigger] perm[k] == k by {
        lemma_perm_fixes(before, after, perm, inv, k);
    }
    assert forall|k: int| 0 <= k < n implies #[trigger] after[k] == before[k] by {
        assert(perm[k] == k);
    }
    assert(after =~= before);
}

/// Each position of a stable sort of a sorted sequence takes its member from
/// the same position.
proof fn lemma_perm_fixes(
    before: Seq<MemberNamed>,
    after: Seq<MemberNamed>,
    perm: Seq<int>,
    inv: Seq<int>,
    k: int,
)
    requires
        addr_sorted(before),
        addr_sorted(after),
        stable_rearrangement(before, after, perm, inv),
        0 <= k < before.len(),
    ensures
        perm[k] == k,
    decreases k,
{
    assert forall|j: int| 0 <= j < k implies #[trigger] perm[j] == j by {
        lemma_perm_fixes(before, after, perm, inv, j);
    }
    if perm[k] != k {
        // no earlier position gives or takes `k`'s member
        assert forall|j: int| 0 <= j < k implies perm[k] != #[trigger] perm[j] by {
            assert(inv[perm[j]] == j);
        }
        if perm[k] < k {
            let j = perm[k];
            assert(perm[j] == j);
        }
        assert(perm[k] > k);
        let m = inv[k];
        assert(perm[m] == k);
        assert(m != k);
        if m < k {
            assert(perm[m] == m);
        }
        assert(m > k);
        let x = after[k].addr@;
        let y = before[k].addr@;
        assert(after[m] == before[k]);
        assert(after[k] == before[perm[k]]);
        assert(seq_le(x, y));
        assert(seq_le(y, x));
        lemma_seq_lt_trichotomy(x, y);
        assert(perm[k] < perm[m]);
    }
}

/// In an address-sorted sequence, two equal addresses enclose only that
/// address, so a repeated address shows up in two neighbours.
proof fn lemma_sorted_neighbours(s: Seq<MemberNamed>)
    requires
        addr_sorted(s),
        forall|m: int| 0 <= m < s.len() - 1 ==> #[trigger] s[m].addr@ != s[m + 1].addr@,
    ensures
        distinct_addrs(s),
{
    assert forall|i: int, j: int| 0 <= i < j < s.len() implies #[trigger] s[i].addr@
        != #[trigger] s[j].addr@ by {
        if s[i].addr@ == s[j].addr@ {
            assert(seq_le(s[i].addr@, s[i + 1].addr@));
            if i + 1 < j {
                assert(seq_le(s[i + 1].addr@, s[j].addr@));
            }
            lemma_seq_lt_trichotomy(s[i].addr@, s[i + 1].addr@);
        }
    }
}

/// Position `k` and its right neighbour share an address, and no earlier
/// neighbours do.
pub open spec fn first_repeat_at(s: Seq<MemberNamed>, k: int) -> bool {
    &&& 0 <= k < s.len() - 1
    &&& s[k].addr@ == s[k + 1].addr@
    &&& forall|m: int| 0 <= m < k ==> #[trigger] s[m].addr@ != s[m + 1].addr@
}

/// Sorts the slice and verifies all member addresses are unique.
pub fn validate_unique_members(members: &mut [MemberNamed]) -> (res: Result<(), ContractError>)
    ensures
        stable_sort_by_addr(old(members)@, final(members)@),
        match res {
            Ok(()) => distinct_addrs(old(members)@),
            Err(e) => {
                &&& !distinct_addrs(old(members)@)
                &&& exists|k: int|
                    first_repeat_at(final(members)@, k) && e@ == ErrorView::DuplicateMember {
                        member: final(members)@[k].addr@,
                    }
            },
        },
{
    sort_by_addr(members);
    let ghost before = old(members)@;
    let ghost (perm, inv) = choose|perm: Seq<int>, inv: Seq<int>|
        stable_rearrangement(before, members@, perm, inv);
    let n = members.len();
    let mut i: usize = 0;
    while i + 1 < n
        invariant
            n == members@.len(),
            i <= n,
            n > 0 ==> i < n,
            n == 0 ==> i == 0,
            stable_rearrangement(before, members@, perm, inv),
            stable_sort_by_addr(before, members@),
            before == old(members)@,
            forall|m: int| 0 <= m < i ==> #[trigger] members@[m].addr@ != members@[m + 1].addr@,
        decreases n - i,
    {
        if members[i].addr == members[i + 1].addr {
            let member = members[i].addr.clone();
            proof {
                let s = members@;
                let (x, y) = (perm[i as int], perm[i + 1]);
                assert(before[x].addr@ == before[y].addr@);
                assert(inv[x] == i && inv[y] == i + 1);
                if x < y {
                    assert(before[x].addr@ == before[y].addr@);
                } else {
                    assert(before[y].addr@ == before[x].addr@);
                }
                assert(!distinct_addrs(before));
            }
            assert(first_repeat_at(members@, i as int));
            return Err(ContractError::DuplicateMember { member });
        }
        i = i + 1;
    }
    proof {
        let s = members@;
        lemma_sorted_neighbours(s);
        assert forall|a: int, b: int| 0 <= a < b < before.len() implies #[trigger] before[a].addr@
            != #[trigger] before[b].addr@ by {
            let (x, y) = (inv[a], inv[b]);
            assert(s[x] == before[a]);
            assert(s[y] == before[b]);
            assert(x != y);
        }
    }
    Ok(())
}

} // verus!
