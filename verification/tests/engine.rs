use particle_life::{
    Contribution, EngineError, Group, Kick, Margins, ParticleSystem, RuleEntry, RuleMatrix, RuleRow,
    MAX_GROUP_SIZE,
};
use rand::Rng;

fn integrate(vx: f64, vy: f64, found: &Vec<Contribution<f64>>) -> Kick<f64> {
    let mut fx = 0.0;
    let mut fy = 0.0;
    for c in found {
        let d = (c.distance_squared as f64).sqrt();
        let f = c.coefficient / d;
        fx += f * c.dx as f64;
        fy += f * c.dy as f64;
    }
    let vx = (vx + fx) * 0.5;
    let vy = (vy + fy) * 0.5;
    Kick { vx, vy, dx: vx as i32, dy: vy as i32 }
}

fn reverse(v: f64) -> f64 {
    -v
}

fn draw() -> f64 {
    rand::thread_rng().gen_range(-1.0..1.0)
}

fn uniform(labels: &[&str], value: f64) -> RuleMatrix<f64> {
    let mut rows = Vec::new();
    for a in labels {
        let mut entries = Vec::new();
        for b in labels {
            entries.push(RuleEntry { target: b.to_string(), coefficient: value });
        }
        rows.push(RuleRow { source: a.to_string(), entries });
    }
    RuleMatrix { rows }
}

fn flat(groups: &Vec<Group<f64>>) -> Vec<(i32, i32, f64, f64, String)> {
    let mut out = Vec::new();
    for g in groups {
        for p in &g.particles {
            out.push((p.x, p.y, p.vx, p.vy, p.group.clone()));
        }
    }
    out
}

#[test]
fn generated_particles_lie_in_the_area_at_rest() {
    let mut system: ParticleSystem<f64> = ParticleSystem::new(40, 7);
    system.create_particles(500, "red", 0.0);
    let groups = system.get_particles();
    assert_eq!(groups.len(), 1);
    assert_eq!(groups[0].label, "red");
    assert_eq!(groups[0].particles.len(), 500);
    for p in &groups[0].particles {
        assert!(0 <= p.x && p.x < 40);
        assert!(0 <= p.y && p.y < 7);
        assert_eq!(p.vx, 0.0);
        assert_eq!(p.vy, 0.0);
        assert_eq!(p.group, "red");
    }
}

#[test]
fn generated_positions_vary() {
    let mut system: ParticleSystem<f64> = ParticleSystem::new(1000, 1000);
    system.create_particles(200, "red", 0.0);
    let groups = system.get_particles();
    let first = (groups[0].particles[0].x, groups[0].particles[0].y);
    assert!(groups[0].particles.iter().any(|p| (p.x, p.y) != first));
}

#[test]
fn area_of_one_unit_puts_every_particle_at_the_origin() {
    let mut system: ParticleSystem<f64> = ParticleSystem::new(1, 1);
    system.create_particles(20, "red", 0.0);
    for p in &system.get_particles()[0].particles {
        assert_eq!((p.x, p.y), (0, 0));
    }
}

#[test]
fn zero_count_gives_a_group_without_particles() {
    let mut system: ParticleSystem<f64> = ParticleSystem::new(800, 600);
    system.create_particles(0, "green", 0.0);
    let groups = system.get_particles();
    assert_eq!(groups.len(), 1);
    assert_eq!(groups[0].label, "green");
    assert!(groups[0].particles.is_empty());
}

#[test]
fn generating_a_group_again_replaces_it_in_place() {
    let mut system: ParticleSystem<f64> = ParticleSystem::new(800, 600);
    system.create_particles(3, "red", 0.0);
    system.create_particles(4, "green", 0.0);
    system.create_particles(5, "red", 0.0);
    let groups = system.get_particles();
    assert_eq!(groups.len(), 2);
    assert_eq!(groups[0].label, "red");
    assert_eq!(groups[0].particles.len(), 5);
    assert_eq!(groups[1].label, "green");
    assert_eq!(groups[1].particles.len(), 4);
}

#[test]
fn generated_rules_cover_every_pair_within_range() {
    let mut system: ParticleSystem<f64> = ParticleSystem::new(800, 600);
    for label in ["red", "magenta", "green"] {
        system.create_particles(2, label, 0.0);
    }
    system.create_rules(draw);
    let rules = system.get_rules();
    assert_eq!(rules.rows.len(), 3);
    for a in ["red", "magenta", "green"] {
        for b in ["red", "magenta", "green"] {
            let c = rules.coefficient(&a.to_string(), &b.to_string());
            assert!(c.is_some());
            let c = c.unwrap();
            assert!(-1.0 <= c && c < 1.0);
        }
    }
    assert!(system.rules_cover());
}

#[test]
fn generating_rules_again_discards_the_old_matrix() {
    let mut system: ParticleSystem<f64> = ParticleSystem::new(800, 600);
    system.create_particles(1, "red", 0.0);
    system.replace_rules(uniform(&["red", "blue"], 7.0));
    system.create_rules(|| 0.25);
    let rules = system.get_rules();
    assert_eq!(rules.rows.len(), 1);
    assert_eq!(rules.rows[0].source, "red");
    assert_eq!(rules.rows[0].entries.len(), 1);
    assert_eq!(rules.coefficient(&"red".to_string(), &"red".to_string()), Some(0.25));
    assert_eq!(rules.coefficient(&"blue".to_string(), &"red".to_string()), None);
}

#[test]
fn step_on_an_engine_without_groups_changes_nothing() {
    let mut system: ParticleSystem<f64> = ParticleSystem::new(800, 600);
    assert_eq!(system.apply_rules(integrate, reverse), Ok(()));
    assert!(system.get_particles().is_empty());
    assert!(system.get_rules().rows.is_empty());
    let r = particle_life::update_particles(&mut system, integrate, reverse);
    assert!(r.unwrap().is_empty());
}

#[test]
fn step_on_empty_groups_changes_nothing() {
    let mut system: ParticleSystem<f64> = ParticleSystem::new(800, 600);
    system.create_particles(0, "red", 0.0);
    system.create_particles(0, "green", 0.0);
    assert_eq!(system.apply_rules(integrate, reverse), Ok(()));
    let groups = system.get_particles();
    assert_eq!(groups.len(), 2);
    assert!(groups[0].particles.is_empty() && groups[1].particles.is_empty());
}

#[test]
fn particles_at_the_radius_do_not_interact() {
    let mut system: ParticleSystem<f64> = ParticleSystem::new(800, 600);
    system.place_group("red", &vec![(100, 100), (180, 100)], 0.0);
    system.replace_rules(uniform(&["red"], 0.5));
    let groups = system.get_particles();
    assert!(system.contributions(&groups[0].particles[0]).is_empty());
    assert!(system.contributions(&groups[0].particles[1]).is_empty());
    assert_eq!(system.apply_rules(integrate, reverse), Ok(()));
    assert_eq!(
        flat(&system.get_particles()),
        vec![(100, 100, 0.0, 0.0, "red".to_string()), (180, 100, 0.0, 0.0, "red".to_string())]
    );
}

#[test]
fn particles_inside_the_radius_interact() {
    let mut system: ParticleSystem<f64> = ParticleSystem::new(800, 600);
    system.place_group("red", &vec![(100, 100), (179, 100)], 0.0);
    system.replace_rules(uniform(&["red"], 0.5));
    let groups = system.get_particles();
    let found = system.contributions(&groups[0].particles[0]);
    assert_eq!(found.len(), 1);
    assert_eq!((found[0].coefficient, found[0].dx, found[0].dy, found[0].distance_squared), (0.5, -79, 0, 6241));
    let found = system.contributions(&groups[0].particles[1]);
    assert_eq!(found.len(), 1);
    assert_eq!((found[0].coefficient, found[0].dx, found[0].dy, found[0].distance_squared), (0.5, 79, 0, 6241));
    assert_eq!(system.apply_rules(integrate, reverse), Ok(()));
    assert_eq!(
        flat(&system.get_particles()),
        vec![(100, 100, -0.25, 0.0, "red".to_string()), (179, 100, 0.25, 0.0, "red".to_string())]
    );
}

#[test]
fn a_particle_does_not_act_on_itself_or_on_one_at_its_place() {
    let mut system: ParticleSystem<f64> = ParticleSystem::new(800, 600);
    system.place_group("red", &vec![(100, 100), (100, 100)], 0.0);
    system.replace_rules(uniform(&["red"], 0.9));
    let groups = system.get_particles();
    assert!(system.contributions(&groups[0].particles[0]).is_empty());
    assert_eq!(system.apply_rules(integrate, reverse), Ok(()));
    assert_eq!(flat(&system.get_particles()), flat(&groups));
}

#[test]
fn diagonal_offsets_are_measured_by_their_length() {
    let mut system: ParticleSystem<f64> = ParticleSystem::new(800, 600);
    system.place_group("red", &vec![(100, 100)], 0.0);
    system.place_group("green", &vec![(148, 164), (156, 157), (157, 156), (100, 20), (100, 21)], 0.0);
    system.replace_rules(uniform(&["red", "green"], 1.0));
    let a = &system.get_particles()[0].particles[0];
    let found = system.contributions(a);
    let seen: Vec<(i32, i32, i32)> = found.iter().map(|c| (c.dx, c.dy, c.distance_squared)).collect();
    assert_eq!(seen, vec![(-56, -57, 6385), (-57, -56, 6385), (0, 79, 6241)]);
}

#[test]
fn forces_are_computed_against_the_state_before_the_tick() {
    let mut system: ParticleSystem<f64> = ParticleSystem::new(800, 600);
    system.place_group("red", &vec![(100, 100), (110, 100)], 0.0);
    system.replace_rules(uniform(&["red"], 40.0));
    assert_eq!(system.apply_rules(integrate, reverse), Ok(()));
    assert_eq!(
        flat(&system.get_particles()),
        vec![(80, 100, -20.0, 0.0, "red".to_string()), (130, 100, 20.0, 0.0, "red".to_string())]
    );
}

#[test]
fn a_particle_at_the_low_edge_bounces() {
    let mut system: ParticleSystem<f64> = ParticleSystem::new(800, 600);
    system.place_group("red", &vec![(0, 300)], -6.0);
    system.replace_rules(uniform(&["red"], 0.0));
    assert_eq!(system.apply_rules(integrate, reverse), Ok(()));
    assert_eq!(flat(&system.get_particles()), vec![(-3, 297, 3.0, -3.0, "red".to_string())]);
}

#[test]
fn a_particle_well_inside_does_not_bounce() {
    let mut system: ParticleSystem<f64> = ParticleSystem::new(800, 600);
    system.place_group("red", &vec![(400, 300)], -6.0);
    system.replace_rules(uniform(&["red"], 0.0));
    assert_eq!(system.apply_rules(integrate, reverse), Ok(()));
    assert_eq!(flat(&system.get_particles()), vec![(397, 297, -3.0, -3.0, "red".to_string())]);
    assert_eq!(system.apply_rules(integrate, reverse), Ok(()));
    assert_eq!(flat(&system.get_particles()), vec![(396, 296, -1.5, -1.5, "red".to_string())]);
}

#[test]
fn standard_margins_bounce_at_two_and_at_thirty_below_the_extent() {
    let m = Margins::standard();
    assert_eq!((m.low, m.high), (3, 31));
    assert!(m.reflects(2, 800));
    assert!(!m.reflects(3, 800));
    assert!(!m.reflects(769, 800));
    assert!(m.reflects(770, 800));
    assert!(m.reflects(-5, 800));
    assert!(m.reflects(i32::MAX, i32::MIN));
}

#[test]
fn margins_of_zero_use_the_whole_area() {
    let m = Margins { low: 0, high: 0 };
    assert!(!m.reflects(0, 800));
    assert!(!m.reflects(800, 800));
    assert!(m.reflects(-1, 800));
    assert!(m.reflects(801, 800));
    let mut system: ParticleSystem<f64> = ParticleSystem::with_margins(800, 600, m);
    system.place_group("red", &vec![(0, 1)], -0.5);
    system.replace_rules(uniform(&["red"], 0.0));
    assert_eq!(system.apply_rules(integrate, reverse), Ok(()));
    assert_eq!(flat(&system.get_particles()), vec![(0, 1, -0.25, -0.25, "red".to_string())]);
}

#[test]
fn landing_adds_the_displacement_and_reports_bounces() {
    let system: ParticleSystem<f64> = ParticleSystem::new(800, 600);
    let area = system.area();
    assert_eq!((area.width, area.height), (800, 600));
    let l = area.land(10, 20, -8, 5).unwrap();
    assert_eq!((l.x, l.y, l.flip_x, l.flip_y), (2, 25, true, false));
    let l = area.land(760, 561, 9, 9).unwrap();
    assert_eq!((l.x, l.y, l.flip_x, l.flip_y), (769, 570, false, true));
    let l = area.land(761, 560, 9, 9).unwrap();
    assert_eq!((l.x, l.y, l.flip_x, l.flip_y), (770, 569, true, false));
    assert_eq!(area.land(i32::MAX, 0, 1, 0), Err(EngineError::PositionOverflow));
    assert_eq!(area.land(0, i32::MIN, 0, -1), Err(EngineError::PositionOverflow));
    assert!(area.land(i32::MAX, i32::MIN, 0, 0).is_ok());
}

#[test]
fn a_missing_rule_is_reported_and_nothing_moves() {
    let mut system: ParticleSystem<f64> = ParticleSystem::new(800, 600);
    system.place_group("red", &vec![(100, 100)], 4.0);
    system.place_group("green", &vec![(110, 100)], 4.0);
    system.replace_rules(uniform(&["red"], 0.5));
    let before = flat(&system.get_particles());
    assert!(!system.rules_cover());
    assert_eq!(system.apply_rules(integrate, reverse), Err(EngineError::MissingRule));
    assert_eq!(flat(&system.get_particles()), before);
    assert!(particle_life::update_particles(&mut system, integrate, reverse).is_err());
}

#[test]
fn a_missing_rule_between_empty_groups_does_not_matter() {
    let mut system: ParticleSystem<f64> = ParticleSystem::new(800, 600);
    system.place_group("red", &vec![(100, 100)], 4.0);
    system.place_group("green", &vec![], 4.0);
    system.replace_rules(uniform(&["red"], 0.5));
    assert!(system.rules_cover());
    assert_eq!(system.apply_rules(integrate, reverse), Ok(()));
    assert_eq!(flat(&system.get_particles()), vec![(102, 102, 2.0, 2.0, "red".to_string())]);
}

#[test]
fn a_move_beyond_the_coordinates_is_reported_and_nothing_moves() {
    let mut system: ParticleSystem<f64> = ParticleSystem::new(800, 600);
    system.place_group("red", &vec![(5, 5), (i32::MAX - 1, 5)], 8.0);
    system.replace_rules(uniform(&["red"], 0.0));
    let before = flat(&system.get_particles());
    assert_eq!(system.apply_rules(integrate, reverse), Err(EngineError::PositionOverflow));
    assert_eq!(flat(&system.get_particles()), before);
}

#[test]
fn resize_to_zero_keeps_the_groups_and_covers_the_labels() {
    let mut system: ParticleSystem<f64> = ParticleSystem::new(800, 600);
    system.create_particles(9, "blue", 0.0);
    let labels = vec!["red".to_string(), "green".to_string(), "red".to_string(), "yellow".to_string()];
    assert_eq!(system.resize_population(0, &labels, 0.0, draw), Ok(()));
    let groups = system.get_particles();
    let names: Vec<&str> = groups.iter().map(|g| g.label.as_str()).collect();
    assert_eq!(names, vec!["red", "green", "yellow"]);
    assert!(groups.iter().all(|g| g.particles.is_empty()));
    let rules = system.get_rules();
    assert_eq!(rules.rows.len(), 3);
    for a in &labels {
        for b in &labels {
            let c = rules.coefficient(a, b).unwrap();
            assert!(-1.0 <= c && c < 1.0);
        }
    }
    assert_eq!(rules.coefficient(&"blue".to_string(), &"red".to_string()), None);
}

#[test]
fn resize_generates_every_group_at_the_new_count() {
    let mut system: ParticleSystem<f64> = ParticleSystem::new(30, 20);
    let labels = vec!["a".to_string(), "b".to_string()];
    assert_eq!(system.resize_population(12, &labels, 0.0, draw), Ok(()));
    let groups = system.get_particles();
    assert_eq!(groups.len(), 2);
    for g in &groups {
        assert_eq!(g.particles.len(), 12);
        for p in &g.particles {
            assert!(0 <= p.x && p.x < 30 && 0 <= p.y && p.y < 20);
            assert_eq!((p.vx, p.vy), (0.0, 0.0));
            assert_eq!(p.group, g.label);
        }
    }
}

#[test]
fn an_absurd_count_is_refused_and_nothing_changes() {
    let mut system: ParticleSystem<f64> = ParticleSystem::new(800, 600);
    system.place_group("red", &vec![(1, 2)], 0.0);
    system.replace_rules(uniform(&["red"], 0.5));
    let labels = vec!["green".to_string()];
    assert_eq!(
        system.resize_population(MAX_GROUP_SIZE + 1, &labels, 0.0, draw),
        Err(EngineError::CountTooLarge)
    );
    assert_eq!(system.resize_population(usize::MAX, &labels, 0.0, draw), Err(EngineError::CountTooLarge));
    assert_eq!(flat(&system.get_particles()), vec![(1, 2, 0.0, 0.0, "red".to_string())]);
    assert_eq!(system.get_rules().coefficient(&"red".to_string(), &"red".to_string()), Some(0.5));
    assert!(particle_life::update_num_atoms(&mut system, MAX_GROUP_SIZE + 1, 0.0, draw).is_err());
}

#[test]
fn replaced_rules_are_read_back_as_supplied() {
    let mut system: ParticleSystem<f64> = ParticleSystem::new(800, 600);
    system.create_particles(1, "red", 0.0);
    let supplied = RuleMatrix {
        rows: vec![
            RuleRow {
                source: "ghost".to_string(),
                entries: vec![
                    RuleEntry { target: "red".to_string(), coefficient: 12.5 },
                    RuleEntry { target: "red".to_string(), coefficient: -3.0 },
                ],
            },
            RuleRow { source: "empty".to_string(), entries: vec![] },
            RuleRow {
                source: "ghost".to_string(),
                entries: vec![RuleEntry { target: "blue".to_string(), coefficient: 1.0 }],
            },
        ],
    };
    system.replace_rules(supplied.clone());
    let read = system.get_rules();
    assert_eq!(read.rows.len(), 3);
    for (a, b) in read.rows.iter().zip(supplied.rows.iter()) {
        assert_eq!(a.source, b.source);
        assert_eq!(a.entries.len(), b.entries.len());
        for (x, y) in a.entries.iter().zip(b.entries.iter()) {
            assert_eq!(x.target, y.target);
            assert_eq!(x.coefficient, y.coefficient);
        }
    }
    assert_eq!(read.coefficient(&"ghost".to_string(), &"red".to_string()), Some(12.5));
    assert_eq!(read.coefficient(&"ghost".to_string(), &"blue".to_string()), None);
    assert_eq!(read.coefficient(&"empty".to_string(), &"red".to_string()), None);
    assert_eq!(read.rows[0].coefficient(&"red".to_string()), Some(12.5));
    assert_eq!(flat(&system.get_particles()).len(), 1);
}

#[test]
fn back_to_back_steps_each_return_one_complete_tick() {
    let mut first: ParticleSystem<f64> = ParticleSystem::new(800, 600);
    first.place_group("red", &vec![(100, 100), (110, 100), (105, 140)], 0.0);
    first.place_group("green", &vec![(120, 130), (300, 300)], 2.0);
    first.replace_rules(uniform(&["red", "green"], 30.0));
    let mut second: ParticleSystem<f64> = ParticleSystem::new(800, 600);
    second.place_group("red", &vec![(100, 100), (110, 100), (105, 140)], 0.0);
    second.place_group("green", &vec![(120, 130), (300, 300)], 2.0);
    second.replace_rules(uniform(&["red", "green"], 30.0));

    let one = particle_life::update_particles(&mut first, integrate, reverse).unwrap();
    let two = particle_life::update_particles(&mut first, integrate, reverse).unwrap();
    assert_eq!(second.apply_rules(integrate, reverse), Ok(()));
    assert_eq!(flat(&one), flat(&second.get_particles()));
    assert_eq!(second.apply_rules(integrate, reverse), Ok(()));
    assert_eq!(flat(&two), flat(&second.get_particles()));
    assert_ne!(flat(&one), flat(&two));
}

#[test]
fn a_snapshot_does_not_follow_the_engine() {
    let mut system: ParticleSystem<f64> = ParticleSystem::new(800, 600);
    system.place_group("red", &vec![(400, 300)], 8.0);
    system.replace_rules(uniform(&["red"], 0.0));
    let snapshot = system.get_particles();
    assert_eq!(system.apply_rules(integrate, reverse), Ok(()));
    assert_eq!(flat(&snapshot), vec![(400, 300, 8.0, 8.0, "red".to_string())]);
    assert_eq!(flat(&system.get_particles()), vec![(404, 304, 4.0, 4.0, "red".to_string())]);
}

#[test]
fn init_generates_the_default_population_once() {
    let mut system: ParticleSystem<f64> = ParticleSystem::new(800, 600);
    let groups = particle_life::init_particles(&mut system, 0.0, draw);
    let names: Vec<&str> = groups.iter().map(|g| g.label.as_str()).collect();
    assert_eq!(names, vec!["red", "magenta", "green", "yellow"]);
    assert!(groups.iter().all(|g| g.particles.len() == 75));
    assert_eq!(particle_life::DEFAULT_GROUP_SIZE, 75);
    let rules = particle_life::get_interaction_rules(&system);
    assert_eq!(rules.rules.rows.len(), 4);
    assert!(rules.rules.rows.iter().all(|r| r.entries.len() == 4));
    let again = particle_life::init_particles(&mut system, 0.0, || 5.0);
    assert_eq!(flat(&again), flat(&groups));
    let kept = particle_life::get_interaction_rules(&system);
    for (a, b) in kept.rules.rows.iter().zip(rules.rules.rows.iter()) {
        for (x, y) in a.entries.iter().zip(b.entries.iter()) {
            assert_eq!(x.coefficient, y.coefficient);
        }
    }
}

#[test]
fn update_num_atoms_regenerates_the_default_groups() {
    let mut system: ParticleSystem<f64> = ParticleSystem::new(800, 600);
    system.create_particles(3, "blue", 0.0);
    let groups = particle_life::update_num_atoms(&mut system, 10, 0.0, draw).unwrap();
    let names: Vec<&str> = groups.iter().map(|g| g.label.as_str()).collect();
    assert_eq!(names, vec!["red", "magenta", "green", "yellow"]);
    assert!(groups.iter().all(|g| g.particles.len() == 10));
    assert!(system.rules_cover());
    assert_eq!(system.group_count(), 4);
}

#[test]
fn rules_can_be_replaced_through_the_commands() {
    let mut system: ParticleSystem<f64> = ParticleSystem::new(800, 600);
    system.place_group("red", &vec![(5, 5)], 0.0);
    let r = particle_life::update_interaction_rules(
        &mut system,
        particle_life::InteractionRules { rules: uniform(&["red"], 0.75) },
    );
    assert_eq!(r, Ok(()));
    assert_eq!(
        particle_life::get_interaction_rules(&system).rules.coefficient(&"red".to_string(), &"red".to_string()),
        Some(0.75)
    );
    let r = particle_life::update_rules_only(
        &mut system,
        particle_life::InteractionRules { rules: uniform(&["red"], -0.5) },
    );
    assert_eq!(r, Ok(()));
    assert_eq!(system.get_rules().coefficient(&"red".to_string(), &"red".to_string()), Some(-0.5));
    assert_eq!(flat(&system.get_particles()), vec![(5, 5, 0.0, 0.0, "red".to_string())]);
}

#[test]
fn every_failure_has_its_message() {
    assert_eq!(
        EngineError::MissingRule.message(),
        "the rule matrix has no coefficient for a pair of groups"
    );
    assert_eq!(EngineError::PositionOverflow.message(), "a particle left the range of coordinates");
    assert_eq!(EngineError::CountTooLarge.message(), "too many particles per group were asked for");
}

#[test]
fn find_group_and_labels_follow_the_order_of_generation() {
    let mut system: ParticleSystem<f64> = ParticleSystem::new(800, 600);
    system.place_group("red", &vec![], 0.0);
    system.place_group("green", &vec![(1, 1)], 0.0);
    assert_eq!(system.find_group(&"red".to_string()), Some(0));
    assert_eq!(system.find_group(&"green".to_string()), Some(1));
    assert_eq!(system.find_group(&"blue".to_string()), None);
    assert_eq!(system.labels(), vec!["red".to_string(), "green".to_string()]);
    system.clear();
    assert_eq!(system.group_count(), 0);
    assert_eq!(particle_life::default_labels(), vec!["red", "magenta", "green", "yellow"]);
}

#[test]
fn random_coordinates_stay_below_the_extent() {
    let system: ParticleSystem<f64> = ParticleSystem::new(3, 2);
    let mut rng = rand::thread_rng();
    for _ in 0..200 {
        let x = system.rand_x(&mut rng);
        let y = system.rand_y(&mut rng);
        assert!(0 <= x && x < 3);
        assert!(0 <= y && y < 2);
    }
}

#[test]
fn the_limit_is_what_no_group_can_hold() {
    assert_eq!(MAX_GROUP_SIZE, usize::MAX / 16);
    assert_eq!(MAX_GROUP_SIZE, isize::MAX as usize / 8);
    assert!(std::mem::size_of::<particle_life::Particle<()>>() >= 8);
}

#[test]
fn two_million_particles_per_group_are_generated() {
    let mut system: ParticleSystem<f64> = ParticleSystem::new(800, 600);
    system.place_group("blue", &vec![(1, 2)], 0.0);
    let labels = vec!["red".to_string()];
    assert_eq!(system.resize_population(2_000_000, &labels, 0.0, draw), Ok(()));
    assert_eq!(system.group_count(), 1);
    let groups = system.get_particles();
    assert_eq!(groups[0].label, "red");
    assert_eq!(groups[0].particles.len(), 2_000_000);
    assert!(groups[0].particles.iter().all(|p| 0 <= p.x && p.x < 800 && 0 <= p.y && p.y < 600));
    assert!(system.get_rules().coefficient(&"red".to_string(), &"red".to_string()).is_some());
}

#[test]
fn generated_rules_name_every_label_once() {
    let mut system: ParticleSystem<f64> = ParticleSystem::new(800, 600);
    let labels = vec!["a".to_string(), "b".to_string(), "a".to_string(), "c".to_string()];
    assert_eq!(system.resize_population(1, &labels, 0.0, draw), Ok(()));
    let rules = system.get_rules();
    let sources: Vec<&str> = rules.rows.iter().map(|r| r.source.as_str()).collect();
    assert_eq!(sources, vec!["a", "b", "c"]);
    for (r, row) in rules.rows.iter().enumerate() {
        let targets: Vec<&str> = row.entries.iter().map(|e| e.target.as_str()).collect();
        assert_eq!(targets, vec!["a", "b", "c"]);
        for (e, entry) in row.entries.iter().enumerate() {
            assert_eq!(rules.coefficient(&row.source, &entry.target), Some(rules.rows[r].entries[e].coefficient));
        }
    }
}

#[test]
fn a_group_without_a_coefficient_adds_nothing() {
    let mut system: ParticleSystem<f64> = ParticleSystem::new(800, 600);
    system.place_group("red", &vec![(100, 100)], 0.0);
    system.place_group("green", &vec![(110, 100)], 0.0);
    system.place_group("blue", &vec![(100, 110)], 0.0);
    let mut rules = uniform(&["red", "blue"], 0.5);
    rules.rows.truncate(1);
    system.replace_rules(rules);
    let a = &system.get_particles()[0].particles[0];
    let found = system.contributions(a);
    let seen: Vec<(i32, i32)> = found.iter().map(|c| (c.dx, c.dy)).collect();
    assert_eq!(seen, vec![(0, -10)]);
    assert!(!system.rules_cover());
}
