//! Which of the five colours each of the three roles gets.

use vstd::prelude::*;

verus! {

/// The index of the colour of a role whose selector is `selector`, after
/// the roles before it were given the indices `earlier`: the selector
/// modulo 5, but 1 in its place where it is 0 or 4 and one of these two is
/// taken, or 2 or 3 and one of these two is taken.
pub open spec fn role_index(selector: u8, earlier: Seq<u8>) -> u8 {
    let index = selector % 5;
    if (index == 0 || index == 4) && (earlier.contains(0) || earlier.contains(4)) {
        1
    } else if (index == 2 || index == 3) && (earlier.contains(2) || earlier.contains(3)) {
        1
    } else {
        index
    }
}

/// The indices of the colours of the three roles, side, corner and centre,
/// each chosen with regard to the ones before it.
pub open spec fn role_indices(side: u8, corner: u8, center: u8) -> Seq<u8> {
    let first = role_index(side, seq![]);
    let second = role_index(corner, seq![first]);
    let third = role_index(center, seq![first, second]);
    seq![first, second, third]
}

/// Chooses the colours of the three roles from their selectors.
pub fn select_roles(side: u8, corner: u8, center: u8) -> (roles: [u8; 3])
    ensures
        roles@ == role_indices(side, corner, center),
        forall|i: int| 0 <= i < 3 ==> #[trigger] roles@[i] < 5,
{
    let first = side % 5;
    let second = avoiding(corner % 5, first, first);
    let third = avoiding(center % 5, first, second);
    let roles = [first, second, third];
    proof {
        let one = seq![first];
        let both = seq![first, second];
        assert(one[0] == first);
        assert(both[0] == first && both[1] == second);
        assert(roles@ =~= role_indices(side, corner, center));
    }
    roles
}

/// `index`, or 1 in its place where `index` and one of `a` and `b` are both
/// of 0 and 4, or both of 2 and 3.
fn avoiding(index: u8, a: u8, b: u8) -> (chosen: u8)
    requires
        index < 5,
    ensures
        chosen < 5,
        chosen == if (index == 0 || index == 4) && (a == 0 || a == 4 || b == 0 || b == 4) {
            1u8
        } else if (index == 2 || index == 3) && (a == 2 || a == 3 || b == 2 || b == 3) {
            1u8
        } else {
            index
        },
{
    if (index == 0 || index == 4) && (a == 0 || a == 4 || b == 0 || b == 4) {
        1
    } else if (index == 2 || index == 3) && (a == 2 || a == 3 || b == 2 || b == 3) {
        1
    } else {
        index
    }
}

} // verus!
