use hypnagogic_core::util::adjacency::Adjacency;
use hypnagogic_core::util::corners::{Corner, CornerType};

#[test]
fn set_flags_vec_test() {
    let adj = Adjacency::n() | Adjacency::s() | Adjacency::w();

    let result = adj.set_flags_vec();

    let expected = vec![Adjacency::n(), Adjacency::w(), Adjacency::s()];

    assert!(expected.iter().all(|item| result.contains(item)));
}

#[test]
fn set_flags_vec_keeps_the_fixed_order() {
    let adj = Adjacency::from_bits(0b1010_0110).unwrap();
    assert_eq!(
        adj.set_flags_vec(),
        vec![Adjacency::s(), Adjacency::e(), Adjacency::se(), Adjacency::nw()]
    );
    assert_eq!(Adjacency::empty().set_flags_vec(), vec![]);
}

#[test]
fn corner_types_follow_the_neighbours() {
    let north_east = Adjacency::n() | Adjacency::e();
    assert_eq!(north_east.get_corner_type(Corner::NorthEast), CornerType::Concave);
    assert_eq!(
        (north_east | Adjacency::ne()).get_corner_type(Corner::NorthEast),
        CornerType::Flat
    );
    assert_eq!(Adjacency::n().get_corner_type(Corner::NorthEast), CornerType::Vertical);
    assert_eq!(Adjacency::e().get_corner_type(Corner::NorthEast), CornerType::Horizontal);
    assert_eq!(Adjacency::empty().get_corner_type(Corner::NorthEast), CornerType::Convex);
    assert_eq!(Adjacency::ne().get_corner_type(Corner::NorthEast), CornerType::Convex);
    assert_eq!(north_east.get_corner_type(Corner::SouthWest), CornerType::Convex);
    assert_eq!(north_east.get_corner_type(Corner::SouthEast), CornerType::Horizontal);
    assert_eq!(north_east.get_corner_type(Corner::NorthWest), CornerType::Vertical);
}

#[test]
fn flat_needs_both_cardinals_and_the_diagonal() {
    for bits in 0..=255u8 {
        let adj = Adjacency::from_bits(bits).unwrap();
        for (corner, diagonal, vertical, horizontal) in [
            (Corner::NorthEast, Adjacency::ne(), Adjacency::n(), Adjacency::e()),
            (Corner::SouthEast, Adjacency::se(), Adjacency::s(), Adjacency::e()),
            (Corner::SouthWest, Adjacency::sw(), Adjacency::s(), Adjacency::w()),
            (Corner::NorthWest, Adjacency::nw(), Adjacency::n(), Adjacency::w()),
        ] {
            let all_there =
                adj.contains(diagonal) && adj.contains(vertical) && adj.contains(horizontal);
            assert_eq!(adj.get_corner_type(corner) == CornerType::Flat, all_there);
        }
    }
}

#[test]
fn orphaned_corners_are_found() {
    assert!(!Adjacency::ne().has_no_orphaned_corner());
    assert!((Adjacency::n() | Adjacency::e() | Adjacency::ne()).has_no_orphaned_corner());
    assert!(!(Adjacency::n() | Adjacency::ne()).has_no_orphaned_corner());
    assert!(Adjacency::cardinals().has_no_orphaned_corner());
    assert!(Adjacency::all().ref_has_no_orphaned_corner());
    assert!(Adjacency::empty().has_no_orphaned_corner());
    assert!((Adjacency::n() | Adjacency::e()).adjacent_corners_filled(Adjacency::ne()));
    assert!(!(Adjacency::n() | Adjacency::e()).adjacent_corners_filled(Adjacency::se()));
}

#[test]
fn corner_sides_are_vertical_then_horizontal() {
    assert_eq!(Adjacency::ne().corner_sides(), (Adjacency::n(), Adjacency::e()));
    assert_eq!(Adjacency::se().corner_sides(), (Adjacency::s(), Adjacency::e()));
    assert_eq!(Adjacency::sw().corner_sides(), (Adjacency::s(), Adjacency::w()));
    assert_eq!(Adjacency::nw().corner_sides(), (Adjacency::n(), Adjacency::w()));
}

#[test]
fn single_directions_turn_by_the_table() {
    let north = Adjacency::n();
    assert_eq!(Adjacency::n().rotate_dir(north), Adjacency::s());
    assert_eq!(Adjacency::s().rotate_dir(north), Adjacency::n());
    assert_eq!(Adjacency::e().rotate_dir(north), Adjacency::w());
    assert_eq!(Adjacency::w().rotate_dir(north), Adjacency::e());
    assert_eq!(Adjacency::nw().rotate_dir(Adjacency::s()), Adjacency::nw());
    assert_eq!(Adjacency::n().rotate_dir(Adjacency::e()), Adjacency::w());
    assert_eq!(Adjacency::s().rotate_dir(Adjacency::e()), Adjacency::e());
    assert_eq!(Adjacency::e().rotate_dir(Adjacency::e()), Adjacency::n());
    assert_eq!(Adjacency::w().rotate_dir(Adjacency::e()), Adjacency::s());
    assert_eq!(Adjacency::n().rotate_dir(Adjacency::w()), Adjacency::e());
    assert_eq!(Adjacency::s().rotate_dir(Adjacency::w()), Adjacency::w());
    assert_eq!(Adjacency::e().rotate_dir(Adjacency::w()), Adjacency::s());
    assert_eq!(Adjacency::w().rotate_dir(Adjacency::w()), Adjacency::n());
}

#[test]
fn sets_turn_flag_by_flag() {
    let set = Adjacency::n() | Adjacency::e();
    assert_eq!(set.rotate_to(Adjacency::s()), set);
    assert_eq!(set.rotate_to(Adjacency::n()), Adjacency::s() | Adjacency::w());
    assert_eq!(set.rotate_to(Adjacency::e()), Adjacency::w() | Adjacency::n());
    assert_eq!(set.rotate_to(Adjacency::w()), Adjacency::e() | Adjacency::s());
    assert_eq!(Adjacency::empty().rotate_to(Adjacency::e()), Adjacency::empty());
    let diagonal = Adjacency::n() | Adjacency::e() | Adjacency::ne();
    assert_eq!(diagonal.rotate_to(Adjacency::s()), diagonal);
}

#[test]
fn quarter_turns_undo_each_other() {
    for bits in 0..16u8 {
        let set = Adjacency::from_bits(bits).unwrap();
        assert_eq!(set.rotate_to(Adjacency::e()).rotate_to(Adjacency::w()), set);
        assert_eq!(set.rotate_to(Adjacency::w()).rotate_to(Adjacency::e()), set);
        assert_eq!(set.rotate_to(Adjacency::n()).rotate_to(Adjacency::n()), set);
        assert_eq!(set.rotate_to(Adjacency::s()).rotate_to(Adjacency::s()), set);
        assert!(set.rotate_to(Adjacency::e()).bits() < 16);
    }
}

#[test]
fn a_half_turn_is_not_undone_by_facing_south() {
    let north = Adjacency::n();
    assert_eq!(north.rotate_to(Adjacency::n()).rotate_to(Adjacency::s()), Adjacency::s());
}

#[test]
fn directions_come_in_engine_order() {
    assert_eq!(
        Adjacency::dmi_cardinals(),
        [Adjacency::s(), Adjacency::n(), Adjacency::e(), Adjacency::w()]
    );
    assert_eq!(
        Adjacency::diagonals(),
        [Adjacency::ne(), Adjacency::se(), Adjacency::sw(), Adjacency::nw()]
    );
    assert_eq!(Adjacency::from(Corner::SouthWest), Adjacency::sw());
    assert_eq!(Adjacency::from_corner(Corner::NorthWest).bits(), 0b1000_0000);
}

#[test]
fn a_turn_to_the_south_keeps_any_set() {
    for bits in 0..=255u8 {
        let set = Adjacency::from_bits(bits).unwrap();
        assert_eq!(set.rotate_dir(Adjacency::s()), set);
        assert_eq!(set.rotate_to(Adjacency::s()), set);
    }
}
