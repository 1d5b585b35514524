use buddhabrot::color::{Color, ColorChannel, Count, Rg, Rgb};

#[test]
fn empty_is_additive_identity_for_every_arity() {
    let mut g: Count = Count::empty();
    g.add(7);
    assert_eq!(g, 7);
    let mut g2: Count = 7;
    g2.add(Count::empty());
    assert_eq!(g2, 7);

    let x = Rg::new(3, 9);
    let mut a = Rg::empty();
    a.add(x);
    assert_eq!(a, x);
    let mut b = x;
    b.add(Rg::empty());
    assert_eq!(b, x);

    let y = Rgb::new(1, 2, 3);
    let mut c = Rgb::empty();
    c.add(y);
    assert_eq!(c, y);
    let mut d = y;
    d.add(Rgb::empty());
    assert_eq!(d, y);
}

#[test]
fn add_sums_channel_by_channel() {
    let mut a = Rgb::new(1, 2, 3);
    a.add(Rgb::new(10, 20, 30));
    assert_eq!(a, Rgb::new(11, 22, 33));
    let mut b = Rg::new(5, 0);
    b.add(Rg::new(1, 4));
    assert_eq!(b, Rg::new(6, 4));
}

#[test]
fn map_identity_leaves_value_unchanged() {
    let x = Rgb::new(4, 0, 12);
    assert_eq!(x.map(|v| v), x);
    let y = Rg::new(8, 1);
    assert_eq!(y.map(|v| v), y);
    let g: Count = 5;
    assert_eq!(g.map(|v| v), 5);
}

#[test]
fn map_applies_to_every_channel() {
    let x = Rgb::new(1, 2, 3);
    assert_eq!(x.map(|v| v * 10), Rgb::new(10, 20, 30));
    assert_eq!(Rg::new(2, 5).map(|v| v + 1), Rg::new(3, 6));
}

#[test]
fn one_shows_a_single_channel() {
    assert_eq!(Rg::one(ColorChannel::Red).to_tuple_rgb(), (1, 0, 0));
    assert_eq!(Rg::one(ColorChannel::Green).to_tuple_rgb(), (0, 1, 0));
    assert_eq!(Rgb::one(ColorChannel::Red).to_tuple_rgb(), (1, 0, 0));
    assert_eq!(Rgb::one(ColorChannel::Green).to_tuple_rgb(), (0, 1, 0));
    assert_eq!(Rgb::one(ColorChannel::Blue).to_tuple_rgb(), (0, 0, 1));
}

#[test]
fn grayscale_one_broadcasts_to_every_slot() {
    assert_eq!(Count::one(ColorChannel::Blue), 1);
    assert_eq!(Count::one(ColorChannel::Red).to_tuple_rgb(), (1, 1, 1));
}

#[test]
fn to_tuple_rgb_fills_missing_channels() {
    assert_eq!(Rg::new(4, 5).to_tuple_rgb(), (4, 5, 0));
    assert_eq!(Rgb::new(4, 5, 6).to_tuple_rgb(), (4, 5, 6));
    let g: Count = 9;
    assert_eq!(g.to_tuple_rgb(), (9, 9, 9));
}

#[test]
fn max_takes_the_larger_channel() {
    assert_eq!(Rgb::new(1, 9, 3).max(Rgb::new(4, 2, 3)), Rgb::new(4, 9, 3));
    assert_eq!(Rg::new(0, 7).max(Rg::new(5, 6)), Rg::new(5, 7));
    let g: Count = 3;
    assert_eq!(Color::max(g, 8), 8);
}

#[test]
fn cdiv_assign_divides_channel_by_channel() {
    let mut a = Rgb::new(10, 9, 7);
    a.cdiv_assign(Rgb::new(2, 3, 2));
    assert_eq!(a, Rgb::new(5, 3, 3));
    let mut b = Rg::new(8, 1);
    b.cdiv_assign(Rg::new(4, 1));
    assert_eq!(b, Rg::new(2, 1));
    let mut g: Count = 9;
    g.cdiv_assign(2);
    assert_eq!(g, 4);
}

#[test]
fn new_sets_fields() {
    let c = Rgb::new(1, 2, 3);
    assert_eq!((c.r, c.g, c.b), (1, 2, 3));
    let d = Rg::new(4, 5);
    assert_eq!((d.r, d.g), (4, 5));
}

#[test]
fn tuples_convert_to_and_from_colors() {
    assert_eq!(Rg::from((2, 3)), Rg::new(2, 3));
    assert_eq!(Rgb::from((2, 3, 4)), Rgb::new(2, 3, 4));
    let t: (Count, Count, Count) = Rgb::new(7, 8, 9).into();
    assert_eq!(t, (7, 8, 9));
}
