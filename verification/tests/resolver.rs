use hardware_monitor::resolver::{
    extended_chain, interpret, resolve, standard_chain, Evidence, Probe, Reading, Resolver, Step,
};
use hardware_monitor::thermal::ThermalComponent;

fn component(label: &str, temperature: i64) -> ThermalComponent {
    ThermalComponent { label: label.to_string(), temperature }
}

fn run(chain: Vec<Probe>, evidence: Vec<Evidence>) -> (Option<Reading>, Vec<Probe>) {
    let mut resolver = Resolver::new(chain);
    let mut ran = Vec::new();
    let mut supply = evidence.into_iter();
    loop {
        match resolver.step() {
            Step::Run(probe) => {
                ran.push(probe);
                let evidence = supply.next().unwrap_or(Evidence::Missing);
                resolver.record(&evidence);
            }
            Step::Finished(reading) => return (reading, ran),
        }
    }
}

#[test]
fn standard_chain_without_platform_probes() {
    assert_eq!(
        standard_chain(false),
        vec![Probe::DirectSensor, Probe::Components, Probe::LoadEstimate]
    );
}

#[test]
fn standard_chain_with_platform_probes() {
    assert_eq!(
        standard_chain(true),
        vec![
            Probe::DirectSensor,
            Probe::Components,
            Probe::ManagementZones,
            Probe::ManagementProbes,
            Probe::ShellZones,
            Probe::ShellProbes,
            Probe::ShellMonitor,
            Probe::LoadEstimate,
        ]
    );
}

#[test]
fn extended_chain_tries_the_direct_sensor_first() {
    assert_eq!(
        extended_chain(false),
        vec![Probe::DirectSensor, Probe::DirectSensor, Probe::Components, Probe::LoadEstimate]
    );
    let long = extended_chain(true);
    assert_eq!(long.len(), 9);
    assert_eq!(long[0], Probe::DirectSensor);
    assert_eq!(&long[1..], &standard_chain(true)[..]);
}

#[test]
fn each_probe_judges_its_own_evidence() {
    assert_eq!(interpret(Probe::DirectSensor, &Evidence::Sensor(48_000_000)), Some(48_000_000));
    assert_eq!(
        interpret(Probe::Components, &Evidence::Components(vec![component("cpu", 40_000_000)])),
        Some(40_000_000)
    );
    assert_eq!(interpret(Probe::ManagementZones, &Evidence::Raw(vec![3032])), Some(30_050_000));
    assert_eq!(interpret(Probe::ManagementProbes, &Evidence::Raw(vec![455])), Some(45_500_000));
    let text = Evidence::Output("45.85\r\n".to_string());
    assert_eq!(interpret(Probe::ShellZones, &text), Some(45_850_000));
    assert_eq!(interpret(Probe::ShellProbes, &text), Some(45_850_000));
    assert_eq!(interpret(Probe::ShellMonitor, &text), Some(45_850_000));
    assert_eq!(interpret(Probe::LoadEstimate, &Evidence::Load(vec![100_000])), Some(80_000_000));
}

#[test]
fn implausible_evidence_yields_nothing() {
    assert_eq!(interpret(Probe::DirectSensor, &Evidence::Sensor(150_000_000)), None);
    assert_eq!(interpret(Probe::DirectSensor, &Evidence::Sensor(-50_000_000)), None);
    assert_eq!(interpret(Probe::DirectSensor, &Evidence::Sensor(i64::MAX)), None);
    assert_eq!(interpret(Probe::ManagementZones, &Evidence::Raw(vec![455])), None);
    assert_eq!(interpret(Probe::ManagementProbes, &Evidence::Raw(vec![3032])), None);
    assert_eq!(interpret(Probe::ShellZones, &Evidence::Output("900".to_string())), None);
    assert_eq!(interpret(Probe::LoadEstimate, &Evidence::Load(Vec::new())), None);
}

#[test]
fn missing_or_foreign_evidence_yields_nothing() {
    let probes = [
        Probe::DirectSensor,
        Probe::Components,
        Probe::ManagementZones,
        Probe::ManagementProbes,
        Probe::ShellZones,
        Probe::ShellProbes,
        Probe::ShellMonitor,
        Probe::LoadEstimate,
    ];
    for probe in probes {
        assert_eq!(interpret(probe, &Evidence::Missing), None);
        if probe != Probe::DirectSensor {
            assert_eq!(interpret(probe, &Evidence::Sensor(40_000_000)), None);
        }
        if probe != Probe::LoadEstimate {
            assert_eq!(interpret(probe, &Evidence::Load(vec![50_000])), None);
        }
        if probe != Probe::Components {
            let list = Evidence::Components(vec![component("cpu", 40_000_000)]);
            assert_eq!(interpret(probe, &list), None);
        }
    }
}

#[test]
fn whatever_is_resolved_is_plausible() {
    let sensors = [i64::MIN, -50_000_001, -50_000_000, -49_999_999, 0, 149_999_999, 150_000_000, i64::MAX];
    let loads = [0u32, 100_000, 255_555, 255_556, u32::MAX];
    for sensor in sensors {
        for load in loads {
            let evidence = vec![
                Evidence::Sensor(sensor),
                Evidence::Components(vec![component("cpu", sensor), component("gpu", 20_000_000)]),
                Evidence::Load(vec![load]),
            ];
            if let Some(reading) = resolve(&standard_chain(false), &evidence) {
                assert!(-50_000_000 <= reading.celsius && reading.celsius <= 150_000_000);
            }
        }
    }
}

#[test]
fn first_probe_with_a_verdict_wins() {
    let evidence = vec![
        Evidence::Sensor(51_000_000),
        Evidence::Components(vec![component("cpu", 40_000_000)]),
        Evidence::Load(vec![0]),
    ];
    assert_eq!(
        resolve(&standard_chain(false), &evidence),
        Some(Reading { celsius: 51_000_000, source: Probe::DirectSensor })
    );
    let evidence = vec![
        Evidence::Sensor(900_000_000),
        Evidence::Components(vec![component("cpu", 40_000_000)]),
        Evidence::Load(vec![0]),
    ];
    assert_eq!(
        resolve(&standard_chain(false), &evidence),
        Some(Reading { celsius: 40_000_000, source: Probe::Components })
    );
}

#[test]
fn estimate_stands_in_when_no_sensor_answers() {
    let evidence = vec![
        Evidence::Missing,
        Evidence::Components(vec![component("nvme Composite", 40_000_000)]),
        Evidence::Load(vec![20_000, 40_000]),
    ];
    assert_eq!(
        resolve(&standard_chain(false), &evidence),
        Some(Reading { celsius: 48_500_000, source: Probe::LoadEstimate })
    );
}

#[test]
fn no_matching_component_and_no_load_gives_nothing() {
    let evidence = vec![
        Evidence::Missing,
        Evidence::Components(vec![
            component("nvme Composite", 40_000_000),
            component("amdgpu edge", 55_000_000),
        ]),
        Evidence::Missing,
    ];
    assert_eq!(resolve(&standard_chain(false), &evidence), None);
    let evidence = vec![
        Evidence::Missing,
        Evidence::Components(vec![component("nvme Composite", 40_000_000)]),
        Evidence::Load(Vec::new()),
    ];
    assert_eq!(resolve(&standard_chain(false), &evidence), None);
    assert_eq!(run(standard_chain(false), evidence).0, None);
}

#[test]
fn platform_probes_are_tried_in_order() {
    let evidence = vec![
        Evidence::Missing,
        Evidence::Components(Vec::new()),
        Evidence::Raw(vec![0]),
        Evidence::Raw(vec![9000]),
        Evidence::Output("error\n".to_string()),
        Evidence::Output("\n61.5\n".to_string()),
        Evidence::Output("70".to_string()),
        Evidence::Load(vec![0]),
    ];
    assert_eq!(
        resolve(&standard_chain(true), &evidence),
        Some(Reading { celsius: 61_500_000, source: Probe::ShellProbes })
    );
    let (reading, ran) = run(standard_chain(true), evidence);
    assert_eq!(reading, Some(Reading { celsius: 61_500_000, source: Probe::ShellProbes }));
    assert_eq!(ran, standard_chain(true)[..6].to_vec());
}

#[test]
fn resolve_stops_where_the_evidence_ends() {
    assert_eq!(resolve(&standard_chain(false), &Vec::new()), None);
    assert_eq!(resolve(&Vec::new(), &vec![Evidence::Sensor(40_000_000)]), None);
    assert_eq!(resolve(&standard_chain(false), &vec![Evidence::Missing]), None);
    let spare = vec![
        Evidence::Missing,
        Evidence::Missing,
        Evidence::Missing,
        Evidence::Sensor(40_000_000),
    ];
    assert_eq!(resolve(&standard_chain(false), &spare), None);
}

#[test]
fn resolver_runs_no_probe_after_a_verdict() {
    let mut resolver = Resolver::new(standard_chain(false));
    assert_eq!(resolver.step(), Step::Run(Probe::DirectSensor));
    resolver.record(&Evidence::Missing);
    assert_eq!(resolver.step(), Step::Run(Probe::Components));
    resolver.record(&Evidence::Components(vec![component("Core 0", 44_000_000)]));
    let found = Some(Reading { celsius: 44_000_000, source: Probe::Components });
    assert_eq!(resolver.step(), Step::Finished(found));
    resolver.record(&Evidence::Sensor(99_000_000));
    resolver.record(&Evidence::Load(vec![100_000]));
    assert_eq!(resolver.step(), Step::Finished(found));
}

#[test]
fn resolver_asks_again_only_for_the_next_probe() {
    let mut resolver = Resolver::new(vec![Probe::DirectSensor, Probe::LoadEstimate]);
    assert_eq!(resolver.step(), Step::Run(Probe::DirectSensor));
    assert_eq!(resolver.step(), Step::Run(Probe::DirectSensor));
    resolver.record(&Evidence::Sensor(150_000_000));
    assert_eq!(resolver.step(), Step::Run(Probe::LoadEstimate));
    resolver.record(&Evidence::Load(Vec::new()));
    assert_eq!(resolver.step(), Step::Finished(None));
    resolver.record(&Evidence::Load(vec![0]));
    assert_eq!(resolver.step(), Step::Finished(None));
}

#[test]
fn resolver_with_an_empty_chain_is_finished() {
    let mut resolver = Resolver::new(Vec::new());
    assert_eq!(resolver.step(), Step::Finished(None));
    resolver.record(&Evidence::Sensor(40_000_000));
    assert_eq!(resolver.step(), Step::Finished(None));
}

#[test]
fn resolver_and_resolve_agree() {
    let cases: Vec<Vec<Evidence>> = vec![
        vec![Evidence::Sensor(40_000_000), Evidence::Missing, Evidence::Missing],
        vec![Evidence::Missing, Evidence::Components(vec![component("cpu", 1)]), Evidence::Missing],
        vec![Evidence::Missing, Evidence::Missing, Evidence::Load(vec![1, 2, 3])],
        vec![Evidence::Missing, Evidence::Missing, Evidence::Missing],
        vec![Evidence::Load(vec![1]), Evidence::Sensor(1), Evidence::Output("1".to_string())],
    ];
    for evidence in cases {
        let all_at_once = resolve(&standard_chain(false), &evidence);
        let (one_by_one, _) = run(standard_chain(false), evidence);
        assert_eq!(all_at_once, one_by_one);
    }
}

#[test]
fn extended_chain_falls_back_to_the_standard_chain() {
    let evidence = vec![
        Evidence::Sensor(47_250_000),
    ];
    let (reading, ran) = run(extended_chain(false), evidence);
    assert_eq!(reading, Some(Reading { celsius: 47_250_000, source: Probe::DirectSensor }));
    assert_eq!(ran, vec![Probe::DirectSensor]);
    let evidence = vec![
        Evidence::Missing,
        Evidence::Missing,
        Evidence::Components(Vec::new()),
        Evidence::Load(vec![50_000]),
    ];
    let (reading, ran) = run(extended_chain(false), evidence);
    assert_eq!(reading, Some(Reading { celsius: 57_500_000, source: Probe::LoadEstimate }));
    assert_eq!(ran, extended_chain(false));
}
