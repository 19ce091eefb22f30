use sierpinski::chaos::{first_inside, generate, sierpinski};
use sierpinski::containment::in_triangle;

type Pt = (f32, f32);

const TRI: [Pt; 3] = [(0.0, 0.5), (0.5, -0.5), (-0.5, -0.5)];

fn centroid(v: &[Pt; 3]) -> Pt {
    ((v[0].0 + v[1].0 + v[2].0) / 3.0, (v[0].1 + v[1].1 + v[2].1) / 3.0)
}

fn below(a: Pt, b: Pt, p: Pt) -> bool {
    p < (p.0, (b.1 - a.1) / (b.0 - a.0) * (p.0 - b.0) - b.1)
}

fn contains(p: Pt) -> bool {
    in_triangle(&TRI, centroid(&TRI), p, below)
}

fn avg(a: Pt, b: Pt) -> Pt {
    ((a.0 + b.0) / 2.0, (a.1 + b.1) / 2.0)
}

/// A replayable random source: a linear congruential generator.
struct Replay(u64);

impl Replay {
    fn next_u32(&mut self) -> u32 {
        self.0 = self.0.wrapping_mul(6364136223846793005).wrapping_add(1442695040888963407);
        (self.0 >> 33) as u32
    }

    fn coord(&mut self) -> f32 {
        (self.next_u32() as f32 / (1u64 << 31) as f32) * 2.0 - 1.0
    }

    fn pick(&mut self) -> usize {
        (self.next_u32() % 3) as usize
    }

    fn candidates(&mut self, n: usize) -> Vec<Pt> {
        (0..n).map(|_| (self.coord(), self.coord())).collect()
    }

    fn picks(&mut self, n: usize) -> Vec<usize> {
        (0..n).map(|_| self.pick()).collect()
    }
}

fn run(seed: u64, iterations: usize) -> Option<Vec<Pt>> {
    let mut rng = Replay(seed);
    let candidates = rng.candidates(64);
    let first = rng.pick();
    let picks = rng.picks(iterations);
    sierpinski(&TRI, &candidates, first, &picks, contains, avg)
}

#[test]
fn zero_iterations_give_one_midpoint() {
    let seed = (0.1, -0.2);
    let r = generate(&TRI, seed, 2, &Vec::new(), avg);
    assert_eq!(r, vec![((-0.5 + 0.1) / 2.0, (-0.5 + -0.2) / 2.0)]);
}

#[test]
fn each_point_is_midpoint_of_vertex_and_previous() {
    let r = generate(&TRI, (0.0, 0.0), 0, &vec![1, 2, 0], avg);
    assert_eq!(r, vec![(0.0, 0.25), (0.25, -0.125), (-0.125, -0.3125), (-0.0625, 0.09375)]);
}

#[test]
fn length_is_iterations_plus_one() {
    for n in [0usize, 1, 2, 10, 1500] {
        let r = run(7, n).expect("a candidate inside the triangle");
        assert_eq!(r.len(), n + 1);
    }
}

#[test]
fn points_stay_in_the_triangle() {
    let mut rng = Replay(42);
    let picks = rng.picks(5000);
    let candidates = vec![(0.05, -0.1)];
    let r = sierpinski(&TRI, &candidates, 0, &picks, contains, avg).unwrap();
    assert_eq!(r.len(), 5001);
    for p in &r {
        assert!(p.0 >= -0.5 && p.0 <= 0.5 && p.1 >= -0.5 && p.1 <= 0.5);
        assert!(contains(*p));
    }
}

#[test]
fn points_stay_accepted_by_the_side_test() {
    let r = run(42, 5000).expect("a candidate inside the triangle");
    for p in &r {
        assert!(contains(*p));
    }
}

#[test]
fn replayed_source_gives_same_points() {
    let a = run(1234, 3000);
    let b = run(1234, 3000);
    assert!(a.is_some());
    assert_eq!(a, b);
}

#[test]
fn seed_is_first_candidate_inside() {
    let candidates = vec![(10.0, 10.0), (0.9, 0.9), (0.0, 0.0), (0.1, 0.1)];
    assert_eq!(first_inside(&candidates, contains), Some(2));
    let r = sierpinski(&TRI, &candidates, 1, &vec![], contains, avg).unwrap();
    assert_eq!(r, vec![(0.25, -0.25)]);
}

#[test]
fn no_candidate_inside_gives_none() {
    let candidates = vec![(10.0, 10.0), (0.9, 0.9)];
    assert_eq!(first_inside(&candidates, contains), None);
    assert_eq!(sierpinski(&TRI, &candidates, 0, &vec![1, 2], contains, avg), None);
    assert_eq!(first_inside(&Vec::<Pt>::new(), contains), None);
}
