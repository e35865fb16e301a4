use neuro_snake::game::Game;
use neuro_snake::grid::{Direction, Vec2};
use neuro_snake::population::Population;
use neuro_snake::selection::{
    choose_parent, draw_bound, parent_for_draw, select_parent, select_parents, total_fitness,
};
use neuro_snake::snake::Snake;
use neuro_snake::topology::{EngineError, Topology, DECISIONS};
use rand::rngs::StdRng;
use rand::SeedableRng;

fn ended(cell_nb: i32, time_alive: u64) -> Game {
    let mut g = Game::with_food(cell_nb, Snake::new(cell_nb), Vec2 { x: 0, y: 0 });
    g.game_over = true;
    g.time_alive = time_alive;
    g
}

fn ended_population(fitness: &[u64]) -> Population {
    Population {
        games: fitness.iter().map(|&f| ended(20, f)).collect(),
        cell_nb: 20,
        generation: 0,
        alive: 0,
    }
}

#[test]
fn total_fitness_adds_up() {
    assert_eq!(total_fitness(&vec![]), 0);
    assert_eq!(total_fitness(&vec![1, 0, 3]), 4);
    assert_eq!(total_fitness(&vec![51, 51, 51]), 153);
}

#[test]
fn draw_bound_is_total_or_slot_count() {
    assert_eq!(draw_bound(&vec![1, 0, 3]), 4);
    assert_eq!(draw_bound(&vec![0, 0, 0, 0]), 4);
    assert_eq!(draw_bound(&vec![0, 0, 7]), 7);
}

#[test]
fn draws_fall_in_proportion() {
    let fitness = vec![1, 0, 3];
    assert_eq!(select_parent(&fitness, 0), 0);
    assert_eq!(select_parent(&fitness, 1), 2);
    assert_eq!(select_parent(&fitness, 2), 2);
    assert_eq!(select_parent(&fitness, 3), 2);
}

#[test]
fn draws_skip_slots_without_fitness() {
    let fitness = vec![0, 2, 0, 5, 0];
    let picks: Vec<usize> = (0..7).map(|r| select_parent(&fitness, r)).collect();
    assert_eq!(picks, vec![1, 1, 3, 3, 3, 3, 3]);
}

#[test]
fn parent_for_draw_follows_fitness() {
    let fitness = vec![2, 1];
    assert_eq!(parent_for_draw(&fitness, 0), 0);
    assert_eq!(parent_for_draw(&fitness, 1), 0);
    assert_eq!(parent_for_draw(&fitness, 2), 1);
}

#[test]
fn parent_for_draw_without_fitness_is_the_draw() {
    let fitness = vec![0, 0, 0, 0];
    for d in 0..4u64 {
        assert_eq!(parent_for_draw(&fitness, d), d as usize);
    }
}

#[test]
fn degenerate_selection_reaches_every_slot() {
    let mut rng = StdRng::seed_from_u64(42);
    let fitness = vec![0, 0, 0, 0];
    let mut seen = [0usize; 4];
    for _ in 0..400 {
        let p = choose_parent(&fitness, &mut rng);
        assert!(p < 4);
        seen[p] += 1;
    }
    assert!(seen.iter().all(|&n| n > 0));
    assert!(seen[0] < 400);
}

#[test]
fn chosen_parents_have_fitness() {
    let mut rng = StdRng::seed_from_u64(9);
    let fitness = vec![0, 4, 0, 1];
    let mut seen = [0usize; 4];
    for _ in 0..500 {
        seen[choose_parent(&fitness, &mut rng)] += 1;
    }
    assert_eq!(seen[0], 0);
    assert_eq!(seen[2], 0);
    assert!(seen[1] > seen[3]);
    assert!(seen[3] > 0);
}

#[test]
fn one_parent_per_slot() {
    let mut rng = StdRng::seed_from_u64(9);
    let fitness = vec![3, 0, 2];
    let parents = select_parents(&fitness, &mut rng);
    assert_eq!(parents.len(), 3);
    assert!(parents.iter().all(|&p| p == 0 || p == 2));
    assert_eq!(select_parents(&vec![], &mut rng), Vec::<usize>::new());
}

#[test]
fn new_population_is_running() {
    let mut rng = StdRng::seed_from_u64(1);
    let p = Population::new(4, 20, &mut rng);
    assert_eq!(p.games.len(), 4);
    assert_eq!(p.alive, 4);
    assert_eq!(p.generation, 0);
    assert_eq!(p.cell_nb, 20);
    assert!(!p.is_finished());
    assert_eq!(p.fitness(), vec![0, 0, 0, 0]);
    for g in p.games.iter() {
        assert_eq!(g.cell_nb, 20);
        assert!(!g.game_over);
        assert_eq!(g.snake.body, Snake::new(20).body);
    }
}

#[test]
fn step_slot_counts_a_death_once() {
    let mut rng = StdRng::seed_from_u64(1);
    let mut p = Population::new(3, 20, &mut rng);
    p.step_slot(1, Direction::E, &mut rng);
    assert!(p.games[1].game_over);
    assert_eq!(p.alive, 2);
    assert_eq!(p.games[1].time_alive, 1);
    assert_eq!(p.games[0].time_alive, 0);
    assert_eq!(p.games[2].time_alive, 0);
    p.step_slot(1, Direction::W, &mut rng);
    assert_eq!(p.alive, 2);
    assert_eq!(p.games[1].time_alive, 1);
    p.step_slot(0, Direction::W, &mut rng);
    assert!(!p.games[0].game_over);
    assert_eq!(p.alive, 2);
    assert_eq!(p.fitness(), vec![1, 1, 0]);
}

#[test]
fn death_at_the_cap_counts_once() {
    let mut rng = StdRng::seed_from_u64(1);
    let mut p = Population::new(2, 20, &mut rng);
    p.games[0].time_alive = 50;
    p.step_slot(0, Direction::E, &mut rng);
    assert!(p.games[0].game_over);
    assert_eq!(p.games[0].time_alive, 51);
    assert_eq!(p.alive, 1);
}

#[test]
fn next_generation_waits_for_every_game() {
    let mut rng = StdRng::seed_from_u64(1);
    let mut p = Population::new(3, 20, &mut rng);
    p.step_slot(0, Direction::E, &mut rng);
    assert_eq!(p.next_generation(&mut rng), None);
    assert_eq!(p.generation, 0);
    assert_eq!(p.alive, 2);
    assert!(p.games[0].game_over);
    assert_eq!(p.games.len(), 3);
}

#[test]
fn next_generation_resets_every_slot() {
    let mut rng = StdRng::seed_from_u64(1);
    let mut p = ended_population(&[3, 0, 7, 51]);
    assert!(p.is_finished());
    let parents = p.next_generation(&mut rng).unwrap();
    assert_eq!(parents.len(), 4);
    assert!(parents.iter().all(|&i| i == 0 || i == 2 || i == 3));
    assert_eq!(p.games.len(), 4);
    assert_eq!(p.alive, 4);
    assert_eq!(p.generation, 1);
    for g in p.games.iter() {
        assert!(!g.game_over);
        assert_eq!(g.time_alive, 0);
        assert_eq!(g.score, 0);
        assert_eq!(g.cell_nb, 20);
        assert_eq!(g.snake.dir, Direction::Undecided);
        assert_eq!(g.snake.body, Snake::new(20).body);
        assert!(0 <= g.food.x && g.food.x < 20 && 0 <= g.food.y && g.food.y < 20);
    }
}

#[test]
fn generation_without_fitness_picks_among_all_slots() {
    let mut rng = StdRng::seed_from_u64(2);
    let mut seen = [false; 4];
    for _ in 0..50 {
        let mut p = ended_population(&[0, 0, 0, 0]);
        let parents = p.next_generation(&mut rng).unwrap();
        assert_eq!(parents.len(), 4);
        for &i in parents.iter() {
            assert!(i < 4);
            seen[i] = true;
        }
        assert_eq!(p.games.len(), 4);
    }
    assert_eq!(seen, [true; 4]);
}

#[test]
fn slot_count_survives_generations() {
    let mut rng = StdRng::seed_from_u64(8);
    for size in 1..6usize {
        let mut p = Population::new(size, 10, &mut rng);
        for round in 0..3u64 {
            let mut ticks = 0;
            while !p.is_finished() {
                for i in 0..size {
                    p.step_slot(i, Direction::from_output_index((i + ticks) % 4), &mut rng);
                }
                ticks += 1;
                assert!(ticks <= 51);
            }
            assert_eq!(p.alive, 0);
            assert!(p.fitness().iter().all(|&f| 1 <= f && f <= 51));
            let parents = p.next_generation(&mut rng).unwrap();
            assert_eq!(parents.len(), size);
            assert_eq!(p.games.len(), size);
            assert_eq!(p.alive, size);
            assert_eq!(p.generation, round + 1);
        }
    }
}

#[test]
fn empty_population_is_always_finished() {
    let mut rng = StdRng::seed_from_u64(8);
    let mut p = Population::new(0, 20, &mut rng);
    assert!(p.is_finished());
    assert_eq!(p.next_generation(&mut rng), Some(vec![]));
    assert_eq!(p.generation, 1);
    assert_eq!(p.games.len(), 0);
}

#[test]
fn topology_for_a_grid() {
    let t = Topology::for_grid(20, 5);
    assert_eq!(t, Topology { nb_inputs: 400, nb_hidden: 5, nb_outputs: 4 });
    assert_eq!(DECISIONS, 4);
    assert_eq!(Topology::new(4, 3, 4), Topology { nb_inputs: 4, nb_hidden: 3, nb_outputs: 4 });
}

#[test]
fn input_of_the_right_length_is_accepted() {
    let t = Topology::new(4, 3, 4);
    assert_eq!(t.check_input(4), Ok(()));
}

#[test]
fn input_of_another_length_is_a_shape_mismatch() {
    let t = Topology::new(4, 3, 4);
    assert_eq!(t.check_input(3), Err(EngineError::ShapeMismatch { expected: 4, found: 3 }));
    assert_eq!(t.check_input(5), Err(EngineError::ShapeMismatch { expected: 4, found: 5 }));
    assert_eq!(t.check_input(0), Err(EngineError::ShapeMismatch { expected: 4, found: 0 }));
}

#[test]
fn tick_plays_every_running_game() {
    let mut rng = StdRng::seed_from_u64(4);
    let mut p = Population::new(3, 20, &mut rng);
    p.tick(&vec![Direction::W, Direction::E, Direction::N], &mut rng);
    assert_eq!(p.fitness(), vec![1, 1, 1]);
    assert_eq!(p.games[0].snake.body[0], Vec2 { x: 9, y: 10 });
    assert!(!p.games[0].game_over);
    assert!(p.games[1].game_over);
    assert_eq!(p.games[2].snake.body[0], Vec2 { x: 10, y: 9 });
    assert_eq!(p.alive, 2);
    p.tick(&vec![Direction::W, Direction::W, Direction::Undecided], &mut rng);
    assert_eq!(p.fitness(), vec![2, 1, 2]);
    assert_eq!(p.games[0].snake.body[0], Vec2 { x: 8, y: 10 });
    assert!(p.games[2].game_over);
    assert_eq!(p.alive, 1);
    assert_eq!(p.generation, 0);
}

#[test]
fn a_lone_walker_ends_at_the_cap() {
    let mut rng = StdRng::seed_from_u64(4);
    let mut p = Population::new(1, 200, &mut rng);
    let mut ticks = 0;
    while !p.is_finished() {
        p.tick(&vec![Direction::W], &mut rng);
        ticks += 1;
    }
    assert_eq!(ticks, 51);
    assert_eq!(p.fitness(), vec![51]);
    assert_eq!(p.games[0].snake.body[0].x, 100 - 51);
    assert_eq!(p.games[0].snake.body.len() as u64, 3 + p.games[0].score);
}
