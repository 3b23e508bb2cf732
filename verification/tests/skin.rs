use ism2::error::ISM2ImportError;
use ism2::model_data::VertexRigging;
use ism2::skin::{permute, SkinLinkage};

fn rigged(joints: (u8, u8, u8, u8)) -> VertexRigging {
    VertexRigging { joints, weights: (1, 2, 3, 4) }
}

fn counted(first: u32) -> [u32; 16] {
    let mut matrix = [0; 16];
    for (k, element) in matrix.iter_mut().enumerate() {
        *element = first + k as u32;
    }
    matrix
}

#[test]
fn an_identifier_is_replaced_by_its_joint_in_every_place() {
    let mut linkage = SkinLinkage::new();
    linkage.insert(7, 2);
    linkage.insert(0, 5);
    assert_eq!(linkage.remap(&rigged((7, 0, 0, 0))).unwrap().joints, (2, 5, 5, 5));
    assert_eq!(linkage.remap(&rigged((0, 7, 0, 0))).unwrap().joints, (5, 2, 5, 5));
    assert_eq!(linkage.remap(&rigged((0, 0, 7, 0))).unwrap().joints, (5, 5, 2, 5));
    assert_eq!(linkage.remap(&rigged((0, 0, 0, 7))).unwrap().joints, (5, 5, 5, 2));
    assert_eq!(linkage.remap(&rigged((7, 7, 7, 7))).unwrap(), rigged((2, 2, 2, 2)));
}

#[test]
fn an_identifier_without_a_joint_is_a_skin_linkage_miss() {
    let mut linkage = SkinLinkage::new();
    linkage.insert(7, 2);
    assert_eq!(linkage.get(7), Ok(2));
    assert_eq!(linkage.get(8), Err(ISM2ImportError::SkinLinkageMiss(8)));
    assert_eq!(linkage.remap(&rigged((7, 9, 7, 7))), Err(ISM2ImportError::SkinLinkageMiss(9)));
    assert_eq!(linkage.remap(&rigged((7, 7, 7, 3))), Err(ISM2ImportError::SkinLinkageMiss(3)));
    assert_eq!(linkage.remap(&rigged((1, 9, 7, 7))), Err(ISM2ImportError::SkinLinkageMiss(1)));
    assert_eq!(
        linkage.remap_all(&vec![rigged((7, 7, 7, 7)), rigged((7, 7, 4, 7)), rigged((5, 7, 7, 7))]),
        Err(ISM2ImportError::SkinLinkageMiss(4))
    );
}

#[test]
fn the_later_joint_holds_a_shared_identifier() {
    let mut linkage = SkinLinkage::new();
    linkage.insert(7, 2);
    linkage.insert(7, 4);
    assert_eq!(linkage.get(7), Ok(4));
}

#[test]
fn a_joint_index_is_stored_as_its_low_byte() {
    let mut linkage = SkinLinkage::new();
    linkage.insert(1, 255);
    linkage.insert(2, 256);
    linkage.insert(3, 0x1234);
    assert_eq!(linkage.remap(&rigged((1, 2, 3, 1))).unwrap().joints, (255, 0, 0x34, 255));
}

#[test]
fn all_records_are_brought_over_in_order() {
    let mut linkage = SkinLinkage::new();
    linkage.insert(10, 0);
    linkage.insert(20, 1);
    let out = linkage
        .remap_all(&vec![rigged((10, 20, 10, 20)), rigged((20, 20, 20, 20))])
        .unwrap();
    assert_eq!(out, vec![rigged((0, 1, 0, 1)), rigged((1, 1, 1, 1))]);
    assert_eq!(linkage.remap_all(&Vec::new()), Ok(Vec::new()));
}

#[test]
fn a_matrix_is_reordered_by_the_fixed_table() {
    let out = permute(&counted(0));
    assert_eq!(out, [0, 4, 8, 12, 1, 5, 9, 13, 2, 6, 10, 14, 3, 7, 11, 15]);
}

#[test]
fn reordering_twice_gives_the_matrix_back() {
    for first in [0, 100, 0xFFFF_FF00] {
        let matrix = counted(first);
        assert_ne!(permute(&matrix), matrix);
        assert_eq!(permute(&permute(&matrix)), matrix);
    }
}

#[test]
fn matrices_are_placed_at_the_index_of_their_joint() {
    let mut linkage = SkinLinkage::new();
    linkage.insert(0, 3);
    linkage.insert(1, 0);
    linkage.insert(2, 3);
    let placed = linkage.place(&vec![counted(10), counted(20), counted(30)]).unwrap();
    assert_eq!(placed.len(), 4);
    assert_eq!(placed[0], permute(&counted(20)));
    assert_eq!(placed[1], [0; 16]);
    assert_eq!(placed[2], [0; 16]);
    assert_eq!(placed[3], permute(&counted(30)));
    assert_eq!(linkage.place(&Vec::new()), Ok(Vec::new()));
}

#[test]
fn a_matrix_without_a_joint_is_a_skin_linkage_miss() {
    let mut linkage = SkinLinkage::new();
    linkage.insert(0, 0);
    linkage.insert(2, 1);
    assert_eq!(
        linkage.place(&vec![counted(10), counted(20), counted(30)]),
        Err(ISM2ImportError::SkinLinkageMiss(1))
    );
}
