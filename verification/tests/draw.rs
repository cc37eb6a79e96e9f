use std::collections::HashMap;
use textmesh::draw::{
    build_commands, build_descriptors, build_instances, ChInstance, DrawError,
    IndexedDrawCommand, IndirectDrawCommand, ShapedGlyph,
};
use textmesh::glyph::TessellatedGlyph;

fn shaped(glyph_id: u32, x_advance: i32, x_offset: i32) -> ShapedGlyph {
    ShapedGlyph { glyph_id, x_advance, y_advance: 0, x_offset, y_offset: 0 }
}

fn index() -> HashMap<u32, TessellatedGlyph> {
    let mut m = HashMap::new();
    m.insert(
        36,
        TessellatedGlyph {
            index_count: 30,
            first_index: 0,
            vertex_offset: 0,
            qvertex_count: 6,
            qvertex_offset: 0,
        },
    );
    m.insert(
        37,
        TessellatedGlyph {
            index_count: 45,
            first_index: 30,
            vertex_offset: 12,
            qvertex_count: 9,
            qvertex_offset: 6,
        },
    );
    m.insert(
        3,
        TessellatedGlyph {
            index_count: 0,
            first_index: 75,
            vertex_offset: 29,
            qvertex_count: 0,
            qvertex_offset: 15,
        },
    );
    m
}

#[test]
fn second_glyph_sits_at_the_first_glyphs_advance() {
    let run = vec![shaped(36, 10, 0), shaped(37, 12, 0)];
    let set = build_descriptors(&index(), &run).unwrap();
    assert_eq!(set.instances, vec![ChInstance { x: 0, y: 0 }, ChInstance { x: 10, y: 0 }]);
}

#[test]
fn offsets_move_a_glyph_but_not_the_pen() {
    let run = vec![shaped(36, 10, 3), shaped(37, 12, -2), shaped(36, 5, 1)];
    let instances = build_instances(&run).unwrap();
    assert_eq!(
        instances,
        vec![ChInstance { x: 3, y: 0 }, ChInstance { x: 8, y: 0 }, ChInstance { x: 23, y: 0 }]
    );
}

#[test]
fn commands_carry_the_ranges_of_the_index() {
    let run = vec![shaped(37, 12, 0), shaped(36, 10, 0)];
    let set = build_descriptors(&index(), &run).unwrap();
    assert_eq!(
        set.cmds,
        vec![
            IndexedDrawCommand {
                index_count: 45,
                instance_count: 1,
                first_index: 30,
                vertex_offset: 12,
                first_instance: 0,
            },
            IndexedDrawCommand {
                index_count: 30,
                instance_count: 1,
                first_index: 0,
                vertex_offset: 0,
                first_instance: 1,
            },
        ]
    );
    assert_eq!(
        set.qcmds,
        vec![
            IndirectDrawCommand {
                vertex_count: 9,
                instance_count: 1,
                first_vertex: 6,
                first_instance: 0,
            },
            IndirectDrawCommand {
                vertex_count: 6,
                instance_count: 1,
                first_vertex: 0,
                first_instance: 1,
            },
        ]
    );
    let (cmds, qcmds) = build_commands(&index(), &run).unwrap();
    assert_eq!(cmds, set.cmds);
    assert_eq!(qcmds, set.qcmds);
}

#[test]
fn command_matches_an_independent_lookup() {
    let index = index();
    let run = vec![shaped(36, 10, 0)];
    let set = build_descriptors(&index, &run).unwrap();
    let glyph = index[&36];
    assert_eq!(set.cmds[0].index_count, glyph.index_count);
    assert_eq!(set.cmds[0].first_index, glyph.first_index);
    assert_eq!(set.cmds[0].vertex_offset, glyph.vertex_offset);
}

#[test]
fn glyph_without_outline_is_drawn_with_empty_ranges() {
    let run = vec![shaped(3, 7, 0), shaped(3, 7, 0)];
    let set = build_descriptors(&index(), &run).unwrap();
    assert_eq!(set.cmds.len(), 2);
    for (k, cmd) in set.cmds.iter().enumerate() {
        assert_eq!(cmd.index_count, 0);
        assert_eq!(cmd.instance_count, 1);
        assert_eq!(cmd.first_instance, k as u32);
    }
    for qcmd in set.qcmds.iter() {
        assert_eq!(qcmd.vertex_count, 0);
    }
    assert_eq!(set.instances, vec![ChInstance { x: 0, y: 0 }, ChInstance { x: 7, y: 0 }]);
}

#[test]
fn empty_run_gives_empty_descriptors() {
    let set = build_descriptors(&index(), &vec![]).unwrap();
    assert!(set.cmds.is_empty());
    assert!(set.qcmds.is_empty());
    assert!(set.instances.is_empty());
    let set = build_descriptors(&HashMap::new(), &vec![]).unwrap();
    assert!(set.cmds.is_empty());
}

#[test]
fn glyph_that_is_not_loaded_fails_the_draw() {
    let run = vec![shaped(36, 10, 0), shaped(99, 10, 0)];
    assert_eq!(build_descriptors(&index(), &run).err(), Some(DrawError::GlyphNotLoaded));
    assert_eq!(build_commands(&index(), &run), None);
    assert_eq!(
        build_descriptors(&HashMap::new(), &vec![shaped(36, 10, 0)]).err(),
        Some(DrawError::GlyphNotLoaded)
    );
}

#[test]
fn vertical_advance_fails_the_draw() {
    let mut rising = shaped(36, 10, 0);
    rising.y_advance = 1;
    assert_eq!(build_descriptors(&index(), &vec![rising]).err(), Some(DrawError::VerticalLayout));
    let run = vec![rising, shaped(37, 10, 0)];
    assert_eq!(build_descriptors(&index(), &run).err(), Some(DrawError::VerticalLayout));
    assert_eq!(build_instances(&run), None);
    let mut sinking = shaped(37, 10, 0);
    sinking.y_advance = -5;
    let run = vec![shaped(36, 10, 0), sinking];
    assert_eq!(build_descriptors(&index(), &run).err(), Some(DrawError::VerticalLayout));
}

#[test]
fn vertical_offset_places_the_glyph_and_is_no_failure() {
    let mut mark = shaped(37, 0, -3);
    mark.y_offset = 4;
    let run = vec![shaped(36, 10, 0), mark, shaped(36, 10, 0)];
    let set = build_descriptors(&index(), &run).unwrap();
    assert_eq!(
        set.instances,
        vec![ChInstance { x: 0, y: 0 }, ChInstance { x: 7, y: 4 }, ChInstance { x: 10, y: 0 }]
    );
    assert_eq!(set.cmds.len(), 3);
    let mut low = shaped(36, 10, 0);
    low.y_offset = i32::MIN;
    assert_eq!(build_instances(&vec![low]).unwrap()[0].y, i32::MIN as i64);
}

#[test]
fn offset_does_not_undo_a_vertical_advance() {
    let mut first = shaped(36, 10, 0);
    first.y_advance = 5;
    let mut second = shaped(37, 10, 0);
    second.y_offset = -5;
    let run = vec![first, second];
    assert_eq!(build_descriptors(&index(), &run).err(), Some(DrawError::VerticalLayout));
}

#[test]
fn missing_glyph_is_reported_before_a_vertical_advance() {
    let mut up = shaped(36, 10, 0);
    up.y_advance = 4;
    let run = vec![up, shaped(99, 10, 0)];
    assert_eq!(build_descriptors(&index(), &run).err(), Some(DrawError::GlyphNotLoaded));
}

#[test]
fn pen_does_not_overflow_on_the_largest_advances() {
    let run = vec![shaped(36, i32::MAX, 0), shaped(36, i32::MAX, 0), shaped(36, i32::MIN, i32::MAX)];
    let instances = build_instances(&run).unwrap();
    assert_eq!(instances[1].x, i32::MAX as i64);
    assert_eq!(instances[2].x, 3 * (i32::MAX as i64));
}
