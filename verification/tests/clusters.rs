use font_shaper::clusters::cluster_sizes;
use font_shaper::glyph::RawGlyph;

fn at(clusters: &[u32]) -> Vec<RawGlyph> {
    clusters
        .iter()
        .map(|&cluster| RawGlyph {
            cluster,
            codepoint: 1,
            x_advance: 0,
            y_advance: 0,
            x_offset: 0,
            y_offset: 0,
        })
        .collect()
}

#[test]
fn one_byte_for_each_of_consecutive_clusters() {
    assert_eq!(cluster_sizes(&at(&[0, 1, 2]), 3), vec![1, 1, 1]);
}

#[test]
fn no_glyphs_have_no_sizes() {
    assert_eq!(cluster_sizes(&at(&[]), 0), Vec::<usize>::new());
    assert_eq!(cluster_sizes(&at(&[]), 7), Vec::<usize>::new());
}

#[test]
fn a_ligature_takes_the_bytes_up_to_the_next_glyph() {
    assert_eq!(cluster_sizes(&at(&[0, 2]), 4), vec![2, 2]);
    assert_eq!(cluster_sizes(&at(&[0, 1, 4, 5]), 6), vec![1, 3, 1, 1]);
}

#[test]
fn the_last_glyph_takes_the_rest_of_the_text() {
    assert_eq!(cluster_sizes(&at(&[0]), 5), vec![5]);
    assert_eq!(cluster_sizes(&at(&[0, 1]), 4), vec![1, 3]);
}

#[test]
fn a_first_glyph_off_the_start_takes_what_precedes_it() {
    assert_eq!(cluster_sizes(&at(&[2, 3]), 4), vec![2, 1]);
    assert_eq!(cluster_sizes(&at(&[2, 5]), 6), vec![3, 1]);
    assert_eq!(cluster_sizes(&at(&[3]), 4), vec![3]);
}

#[test]
fn glyphs_of_one_cluster_get_one_byte_but_the_last() {
    assert_eq!(cluster_sizes(&at(&[0, 0]), 2), vec![1, 2]);
}

#[test]
fn descending_clusters_are_not_backfilled() {
    assert_eq!(cluster_sizes(&at(&[3, 0]), 4), vec![3, 4]);
    assert_eq!(cluster_sizes(&at(&[0, 2, 1]), 3), vec![2, 1, 2]);
    assert_eq!(cluster_sizes(&at(&[0, 9]), 3), vec![9, 1]);
}
