use buddhabrot::color::{Color, Count, Rg, Rgb};
use buddhabrot::image::Image;
use buddhabrot::sample::{merge, merge_fits, pixel_in_bounds, plan, plan_for, plot_trajectory, progress_due};

fn cells<T: Color>(im: Image<T>) -> Vec<T> {
    im.into_enumerate_pixels().into_iter().map(|(_, _, c)| c).collect()
}

#[test]
fn image_starts_empty_and_adds_at_coordinates() {
    let mut im: Image<Rgb> = Image::new(6, 3);
    assert_eq!(im.size(), 6);
    assert_eq!(im.width(), 3);
    im.add((2, 1), Rgb::new(1, 2, 3));
    im.add((2, 1), Rgb::new(1, 0, 0));
    let all = im.into_enumerate_pixels();
    assert_eq!(all.len(), 6);
    for (i, (x, y, c)) in all.iter().enumerate() {
        assert_eq!((*x, *y), (i % 3, i / 3));
        if i == 5 {
            assert_eq!(*c, Rgb::new(2, 2, 3));
        } else {
            assert_eq!(*c, Rgb::empty());
        }
    }
}

#[test]
fn plan_divides_samples_among_workers() {
    let p = plan_for(16, 4, 1, 8, 3);
    assert_eq!(p.height, 4);
    assert_eq!(p.iters, 16);
    assert_eq!(p.per_worker, 6);
    assert_eq!(p.progress_step, 2);
    assert_eq!(p.workers, 3);

    let q = plan_for(20, 4, 3, 10, 4);
    assert_eq!(q.iters, 60);
    assert_eq!(q.per_worker, 15);
    assert_eq!(q.height, 5);
}

#[test]
fn plan_truncates_height() {
    let p = plan_for(10, 4, 2, 5, 1);
    assert_eq!(p.height, 2);
    assert_eq!(p.per_worker, 20);
}

#[test]
fn plan_uses_at_least_one_worker() {
    let p = plan(16, 4, 2, 8);
    assert!(p.workers >= 1);
    assert_eq!(p.iters, 32);
    assert_eq!(p.per_worker, (32 + p.workers - 1) / p.workers);
}

#[test]
fn progress_is_staggered_by_worker() {
    let p = plan_for(16, 4, 1, 8, 4);
    assert_eq!(p.progress_step, 2);
    assert!(!progress_due(&p, 0, 0));
    assert!(progress_due(&p, 0, 8));
    assert!(!progress_due(&p, 0, 6));
    assert!(progress_due(&p, 1, 6));
    assert!(!progress_due(&p, 1, 0));
    assert!(progress_due(&p, 3, 2));
}

#[test]
fn pixels_outside_the_grid_are_dropped() {
    assert_eq!(pixel_in_bounds(0, 0, 4, 4), Some((0, 0)));
    assert_eq!(pixel_in_bounds(3, 3, 4, 4), Some((3, 3)));
    assert_eq!(pixel_in_bounds(4, 0, 4, 4), None);
    assert_eq!(pixel_in_bounds(0, 4, 4, 4), None);
    assert_eq!(pixel_in_bounds(-1, 2, 4, 4), None);
    assert_eq!(pixel_in_bounds(2, -1, 4, 4), None);
    assert_eq!(pixel_in_bounds(2, 1, 4, 4), Some((2, 1)));
}

#[test]
fn plotted_hits_sum_to_landing_points() {
    let mut im: Image<Count> = Image::new(16, 4);
    let points = vec![(0, 0), (3, 3), (2, 1), (2, 1), (4, 0), (-1, 2), (1, 7)];
    plot_trajectory(&mut im, &points);
    let all = cells(im);
    let total: Count = all.iter().sum();
    assert_eq!(total, 4);
    assert_eq!(all[0], 1);
    assert_eq!(all[15], 1);
    assert_eq!(all[6], 2);
}

#[test]
fn plotting_adds_red_only() {
    let mut im: Image<Rgb> = Image::new(4, 2);
    plot_trajectory(&mut im, &vec![(1, 1), (1, 1), (0, 0)]);
    let all = cells(im);
    assert_eq!(all[3], Rgb::new(2, 0, 0));
    assert_eq!(all[0], Rgb::new(1, 0, 0));
    assert_eq!(all[1], Rgb::empty());

    let mut rg: Image<Rg> = Image::new(4, 2);
    plot_trajectory(&mut rg, &vec![(0, 1)]);
    assert_eq!(cells(rg)[2], Rg::new(1, 0));
}

#[test]
fn merge_adds_cell_by_cell() {
    let mut shared: Image<Count> = Image::new(4, 2);
    shared.add((1, 0), 5);
    let mut local: Image<Count> = Image::new(4, 2);
    local.add((1, 0), 2);
    local.add((0, 1), 3);
    merge(&mut shared, local);
    assert_eq!(cells(shared), vec![0, 7, 3, 0]);
}

#[test]
fn merging_twice_doubles_every_cell() {
    let build = || {
        let mut local: Image<Rgb> = Image::new(6, 3);
        local.add((0, 0), Rgb::new(1, 2, 3));
        local.add((2, 1), Rgb::new(4, 0, 1));
        local
    };
    let mut shared: Image<Rgb> = Image::new(6, 3);
    merge(&mut shared, build());
    merge(&mut shared, build());
    let all = cells(shared);
    assert_eq!(all[0], Rgb::new(2, 4, 6));
    assert_eq!(all[5], Rgb::new(8, 0, 2));
    assert_eq!(all[1], Rgb::empty());
}

#[test]
fn get_reads_the_cell_at_coordinates() {
    let mut im: Image<Rg> = Image::new(6, 2);
    im.add((1, 2), Rg::new(3, 4));
    assert_eq!(im.get((1, 2)), Rg::new(3, 4));
    assert_eq!(im.get((0, 2)), Rg::empty());
}

#[test]
fn merge_fits_detects_channel_overflow() {
    let mut shared: Image<Rg> = Image::new(4, 2);
    shared.add((1, 1), Rg::new(0, Count::MAX - 1));
    let mut local: Image<Rg> = Image::new(4, 2);
    local.add((1, 1), Rg::new(5, 1));
    assert!(merge_fits(&shared, &local));
    local.add((1, 1), Rg::new(0, 1));
    assert!(!merge_fits(&shared, &local));

    let mut g: Image<Count> = Image::new(2, 1);
    g.add((0, 1), Count::MAX);
    let mut h: Image<Count> = Image::new(2, 1);
    assert!(merge_fits(&g, &h));
    h.add((0, 1), 1);
    assert!(!merge_fits(&g, &h));
}
