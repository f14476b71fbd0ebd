use gridworld::atlas::{
    create_atlas, create_atlas_with_block, create_atlas_with_padding, entry_with_padding_plan,
    power_of_two_exponent, AtlasEntryLeakOption, AtlasError, AtlasLeakOption, PackError, Texcoord,
};

// The textures of the atlas tests: a frame of 32 by 64 pixels and two
// ground textures of 32 by 32 pixels.
fn entries() -> Vec<(u32, u32)> {
    vec![(32, 64), (32, 32), (32, 32)]
}

fn inside_page(t: &Texcoord, page_count: u32) -> bool {
    t.page < page_count && t.min_x <= t.max_x && t.max_x <= t.size && t.min_y <= t.max_y && t.max_y <= t.size
}

#[test]
fn create() {
    let layout = create_atlas(8, 512, AtlasLeakOption::NoLeak, &entries()).unwrap();
    assert_eq!(layout.page_count, 1);
    assert_eq!(layout.mip_level_count, 1);
    assert_eq!(layout.padding, 0);
    assert_eq!(layout.texcoords.len(), 3);
    for (t, &(w, h)) in layout.texcoords.iter().zip(entries().iter()) {
        assert_eq!(t.max_x - t.min_x, w);
        assert_eq!(t.max_y - t.min_y, h);
        assert_eq!(t.size, 512);
        assert!(inside_page(t, layout.page_count));
    }
}

#[test]
fn create_with_padding() {
    let layout = create_atlas(8, 512, AtlasLeakOption::Padding(4), &entries()).unwrap();
    assert_eq!(layout.page_count, 1);
    // 512 = 2^9: mip levels 512, 256, ..., 1.
    assert_eq!(layout.mip_level_count, 10);
    assert_eq!(layout.padding, 4);
    for (t, &(w, h)) in layout.texcoords.iter().zip(entries().iter()) {
        assert_eq!(t.max_x - t.min_x, w);
        assert_eq!(t.max_y - t.min_y, h);
        assert!(t.min_x >= 4 && t.min_y >= 4);
        assert!(t.max_x + 4 <= 512 && t.max_y + 4 <= 512);
        assert!(inside_page(t, layout.page_count));
    }
    // Padded textures on one page do not overlap.
    let t = &layout.texcoords;
    for i in 0..t.len() {
        for j in 0..t.len() {
            if i != j && t[i].page == t[j].page {
                let apart = t[i].max_x + 4 <= t[j].min_x - 4
                    || t[j].max_x + 4 <= t[i].min_x - 4
                    || t[i].max_y + 4 <= t[j].min_y - 4
                    || t[j].max_y + 4 <= t[i].min_y - 4;
                assert!(apart);
            }
        }
    }
}

#[test]
fn create_with_block() {
    let layout = create_atlas(8, 512, AtlasLeakOption::Block(32), &entries()).unwrap();
    assert_eq!(layout.page_count, 1);
    // 32 = 2^5: mip levels down to one pixel per block.
    assert_eq!(layout.mip_level_count, 6);
    assert_eq!(layout.padding, 16);
    for (t, &(w, h)) in layout.texcoords.iter().zip(entries().iter()) {
        assert_eq!(t.max_x - t.min_x, w);
        assert_eq!(t.max_y - t.min_y, h);
        assert_eq!((t.min_x - 16) % 32, 0);
        assert_eq!((t.min_y - 16) % 32, 0);
        assert!(inside_page(t, layout.page_count));
    }
}

#[test]
fn single_entry_goes_to_the_corner() {
    let layout = create_atlas_with_padding(1, 64, false, 2, &vec![(10, 20)]).unwrap();
    assert_eq!(
        layout.texcoords[0],
        Texcoord { page: 0, min_x: 2, min_y: 2, max_x: 12, max_y: 22, size: 64 }
    );
    let layout = create_atlas_with_block(1, 64, 16, &vec![(10, 20)]).unwrap();
    assert_eq!(
        layout.texcoords[0],
        Texcoord { page: 0, min_x: 8, min_y: 8, max_x: 18, max_y: 28, size: 64 }
    );
}

#[test]
fn errors_in_order_of_checks() {
    assert_eq!(create_atlas(0, 3, AtlasLeakOption::Block(3), &vec![]).unwrap_err(), AtlasError::ZeroPageCount);
    assert_eq!(create_atlas(1, 3, AtlasLeakOption::Block(3), &vec![]).unwrap_err(), AtlasError::InvalidSize(3));
    assert_eq!(
        create_atlas(1, 64, AtlasLeakOption::Block(3), &vec![]).unwrap_err(),
        AtlasError::InvalidBlockSize(3)
    );
    assert_eq!(create_atlas(1, 64, AtlasLeakOption::Block(4), &vec![]).unwrap_err(), AtlasError::ZeroEntryCount);
    assert_eq!(create_atlas(1, 64, AtlasLeakOption::NoLeak, &vec![]).unwrap_err(), AtlasError::ZeroEntryCount);
    assert_eq!(
        create_atlas(1, 64, AtlasLeakOption::NoLeak, &vec![(65, 1)]).unwrap_err(),
        AtlasError::Packing(PackError::NotEnoughBinSpace)
    );
    assert_eq!(
        create_atlas(1, 64, AtlasLeakOption::Padding(1), &vec![(63, 1)]).unwrap_err(),
        AtlasError::Packing(PackError::NotEnoughBinSpace)
    );
}

#[test]
fn pages_fill_up_in_order() {
    // Two 64x64 textures on 64x64 pages need two pages.
    let layout = create_atlas(4, 64, AtlasLeakOption::NoLeak, &vec![(64, 64), (64, 64)]).unwrap();
    assert_eq!(layout.page_count, 2);
    let mut pages: Vec<u32> = layout.texcoords.iter().map(|t| t.page).collect();
    pages.sort();
    assert_eq!(pages, vec![0, 1]);
    assert_eq!(
        create_atlas(1, 64, AtlasLeakOption::NoLeak, &vec![(64, 64), (64, 64)]).unwrap_err(),
        AtlasError::Packing(PackError::NotEnoughBinSpace)
    );
}

#[test]
fn powers_of_two() {
    assert_eq!(power_of_two_exponent(1), Some(0));
    assert_eq!(power_of_two_exponent(512), Some(9));
    assert_eq!(power_of_two_exponent(0x8000_0000), Some(31));
    assert_eq!(power_of_two_exponent(0), None);
    assert_eq!(power_of_two_exponent(96), None);
    assert_eq!(power_of_two_exponent(u32::MAX), None);
}

#[test]
fn padded_entry_copies() {
    let (extent, copies) = entry_with_padding_plan(10, 20, 3, AtlasEntryLeakOption::Single);
    assert_eq!(extent, (16, 26));
    assert_eq!(copies, vec![(3, 3)]);
    let (extent, copies) = entry_with_padding_plan(10, 20, 3, AtlasEntryLeakOption::Repeat);
    assert_eq!(extent, (16, 26));
    assert_eq!(
        copies,
        vec![(-7, -17), (-7, 3), (-7, 23), (3, -17), (3, 3), (3, 23), (13, -17), (13, 3), (13, 23)]
    );
}
