use hyperview::lattice::{AtomColor, LatticeAtom, LatticePoint};
use hyperview::voxels::{atoms_from_text, is_white_space_char, AtomsTextError};

fn atom(x: i32, y: i32, z: i32, r: u8, g: u8, b: u8, a: u8) -> LatticeAtom {
    LatticeAtom { point: LatticePoint { x, y, z, w: 0 }, color: AtomColor::Rgba8 { r, g, b, a } }
}

#[test]
fn reads_lines_in_order() {
    let text = "# a voxel file\n\n70 25 10 255 0 0 255\n  71\t25 10 0 255 0 128  \r\n1 2 3\n";
    let atoms = atoms_from_text(text).unwrap();
    assert_eq!(atoms, vec![atom(0, 0, 0, 255, 0, 0, 255), atom(1, 0, 0, 0, 255, 0, 128)]);
}

#[test]
fn empty_text_has_no_atoms() {
    assert_eq!(atoms_from_text("").unwrap(), vec![]);
    assert_eq!(atoms_from_text("\n\n   \n").unwrap(), vec![]);
}

#[test]
fn comment_lines_are_skipped_even_with_seven_fields() {
    assert_eq!(atoms_from_text("   #1 2 3 4 5 6 7").unwrap(), vec![]);
    assert_eq!(atoms_from_text("# 1 2 3 4 5 6").unwrap(), vec![]);
}

#[test]
fn lines_with_other_field_counts_are_skipped() {
    assert_eq!(atoms_from_text("1 2 3 4 5 6\n1 2 3 4 5 6 7 8").unwrap(), vec![]);
    assert_eq!(atoms_from_text("x y z").unwrap(), vec![]);
}

#[test]
fn signs_and_leading_zeros() {
    let atoms = atoms_from_text("+80 -5 0010 +1 002 3 255").unwrap();
    assert_eq!(atoms, vec![atom(10, -30, 0, 1, 2, 3, 255)]);
}

#[test]
fn unicode_white_space_separates_fields() {
    let atoms = atoms_from_text("\u{a0}70\u{2003}25 10 1 2 3 4\u{3000}").unwrap();
    assert_eq!(atoms, vec![atom(0, 0, 0, 1, 2, 3, 4)]);
    assert!(is_white_space_char('\u{85}'));
    assert!(is_white_space_char('\u{202f}'));
    assert!(!is_white_space_char('\u{200b}'));
    assert!(!is_white_space_char('x'));
}

#[test]
fn bad_numbers_are_errors() {
    assert_eq!(atoms_from_text("1 2 3 256 0 0 0"), Err(AtomsTextError::BadNumber));
    assert_eq!(atoms_from_text("1 2 3 -1 0 0 0"), Err(AtomsTextError::BadNumber));
    assert_eq!(atoms_from_text("a 2 3 4 5 6 7"), Err(AtomsTextError::BadNumber));
    assert_eq!(atoms_from_text("+ 2 3 4 5 6 7"), Err(AtomsTextError::BadNumber));
    assert_eq!(atoms_from_text("2147483648 2 3 4 5 6 7"), Err(AtomsTextError::BadNumber));
    assert_eq!(atoms_from_text("1 2 3 4 5 6 7\n1 2 3 4 5 6 x\n"), Err(AtomsTextError::BadNumber));
}

#[test]
fn extreme_coordinates() {
    let atoms = atoms_from_text("2147483647 -2147483623 -2147483638 0 0 0 0").unwrap();
    assert_eq!(atoms, vec![atom(2147483577, -2147483648, -2147483648, 0, 0, 0, 0)]);
    assert_eq!(
        atoms_from_text("-2147483648 0 0 1 1 1 1"),
        Err(AtomsTextError::CoordinateOutOfRange)
    );
}

#[test]
fn first_failing_line_decides() {
    assert_eq!(
        atoms_from_text("-2147483648 0 0 1 1 1 1\n1 2 3 999 0 0 0"),
        Err(AtomsTextError::CoordinateOutOfRange)
    );
    assert_eq!(
        atoms_from_text("1 2 3 999 0 0 0\n-2147483648 0 0 1 1 1 1"),
        Err(AtomsTextError::BadNumber)
    );
}

#[test]
fn appended_skipped_line_changes_nothing() {
    let base = "70 25 10 1 2 3 4";
    let before = atoms_from_text(base).unwrap();
    let after = atoms_from_text(&format!("{}\n# more", base)).unwrap();
    assert_eq!(before, after);
    let appended = atoms_from_text(&format!("{}\n71 25 10 5 6 7 8", base)).unwrap();
    assert_eq!(appended, vec![atom(0, 0, 0, 1, 2, 3, 4), atom(1, 0, 0, 5, 6, 7, 8)]);
}
