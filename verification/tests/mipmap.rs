use gli_rs::mipmap::downsample;
use gli_rs::sampler::Filter;
use gli_rs::Extent3d;

fn e3(width: u32, height: u32, depth: u32) -> Extent3d {
    Extent3d { width, height, depth }
}

#[test]
fn downsample_by_two() {
    let image: Vec<u8> = (0u8..16).collect();
    let nearest = downsample(Filter(Filter::NEAREST), &image, e3(4, 4, 1), e3(2, 2, 1), 1);
    assert_eq!(nearest, [5, 7, 13, 15]);
    let linear = downsample(Filter(Filter::LINEAR), &image, e3(4, 4, 1), e3(2, 2, 1), 1);
    assert_eq!(linear, [3, 5, 11, 13]);
}

#[test]
fn downsample_keeps_the_bytes_of_a_texel_apart() {
    let image = [0u8, 255, 100, 0, 50, 255, 150, 0];
    let linear = downsample(Filter(Filter::LINEAR), &image, e3(4, 1, 1), e3(2, 1, 1), 2);
    assert_eq!(linear, [50, 128, 100, 128]);
    let nearest = downsample(Filter(Filter::NEAREST), &image, e3(4, 1, 1), e3(2, 1, 1), 2);
    assert_eq!(nearest, [100, 0, 150, 0]);
}

#[test]
fn downsample_to_the_same_size_changes_nothing() {
    let image = [9u8, 8, 7, 6, 5, 4];
    for filter in [Filter::NEAREST, Filter::LINEAR] {
        let same = downsample(Filter(filter), &image, e3(3, 2, 1), e3(3, 2, 1), 1);
        assert_eq!(same, image);
    }
}

#[test]
fn downsample_of_the_greatest_bytes_does_not_overflow() {
    let image = [255u8; 8];
    let linear = downsample(Filter(Filter::LINEAR), &image, e3(2, 2, 2), e3(1, 1, 1), 1);
    assert_eq!(linear, [255]);
}

#[test]
fn downsample_along_one_axis_only() {
    // Eight rows of one texel come down to four: the width stays one.
    let image = [0u8, 10, 20, 30, 40, 50, 60, 70];
    let linear = downsample(Filter(Filter::LINEAR), &image, e3(1, 8, 1), e3(1, 4, 1), 1);
    assert_eq!(linear, [5, 25, 45, 65]);
    let linear = downsample(Filter(Filter::LINEAR), &image, e3(1, 1, 8), e3(1, 1, 4), 1);
    assert_eq!(linear, [5, 25, 45, 65]);
}
