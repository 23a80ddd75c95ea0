use std::rc::Rc;

use halo2_json_regex::builder::{ConstraintSystemRef, RegexCheckConfig};
use halo2_json_regex::plan::RegionPlan;
use halo2_json_regex::segment::convert_input_to_verify_format;
use halo2_json_regex::set_regex_check_config_params;
use halo2_proofs::arithmetic::FieldExt;
use halo2_proofs::circuit::floor_planner::V1;
use halo2_proofs::circuit::{AssignedCell, Layouter, Value};
use halo2_proofs::dev::MockProver;
use halo2_proofs::pasta::Fp;
use halo2_proofs::plonk::{Assigned, Circuit, ConstraintSystem, Error};

fn configure_with_pattern(meta: &mut ConstraintSystem<Fp>, pattern: &str) -> Rc<RegexCheckConfig> {
    let params = set_regex_check_config_params(String::from(pattern));
    let mut handle = ConstraintSystemRef { inner: meta };
    match RegexCheckConfig::configure(&mut handle, &params) {
        Ok(config) => Rc::new(config),
        Err(_) => panic!("the pattern was rejected"),
    }
}

fn run_plan<F: FieldExt>(
    config: &RegexCheckConfig,
    mut layouter: impl Layouter<F>,
    plan: &[RegionPlan],
) -> Result<AssignedCell<Assigned<F>, F>, Error> {
    let mut result: Result<AssignedCell<Assigned<F>, F>, Error> = Err(Error::Synthesis);
    for region_plan in plan {
        let gate = &config.gates[region_plan.section_index];
        result = layouter.assign_region(
            || "Assign value",
            |mut region| {
                let mut last: Result<AssignedCell<Assigned<F>, F>, Error> = Err(Error::Synthesis);
                for (k, value) in region_plan.values.iter().enumerate() {
                    let offset = region_plan.offset + k;
                    gate.selector.enable(&mut region, offset)?;
                    last = region.assign_advice(
                        || "value".to_owned() + &offset.to_string(),
                        gate.column.inner,
                        offset,
                        || Value::known(F::from(*value).into()),
                    );
                }
                last
            },
        );
    }
    result
}

fn synthesize_input(
    config: &RegexCheckConfig,
    layouter: impl Layouter<Fp>,
    data_to_verify: Vec<Vec<u64>>,
) -> Result<(), Error> {
    let plan = config.assign(data_to_verify).map_err(|_| Error::Synthesis)?;
    run_plan::<Fp>(config, layouter, &plan)?;
    Ok(())
}

struct KeyOnlyCircuit {
    data_to_verify: Vec<Vec<u64>>,
}

impl Circuit<Fp> for KeyOnlyCircuit {
    type Config = Rc<RegexCheckConfig>;
    type FloorPlanner = V1;

    fn without_witnesses(&self) -> Self {
        KeyOnlyCircuit { data_to_verify: Vec::new() }
    }

    fn configure(meta: &mut ConstraintSystem<Fp>) -> Self::Config {
        configure_with_pattern(meta, "{\"[a-z]+\"}")
    }

    fn synthesize(
        &self,
        config: Self::Config,
        mut layouter: impl Layouter<Fp>,
    ) -> Result<(), Error> {
        synthesize_input(
            &config,
            layouter.namespace(|| "Assign value"),
            self.data_to_verify.clone(),
        )
    }
}

struct KeyValueCircuit {
    data_to_verify: Vec<Vec<u64>>,
}

impl Circuit<Fp> for KeyValueCircuit {
    type Config = Rc<RegexCheckConfig>;
    type FloorPlanner = V1;

    fn without_witnesses(&self) -> Self {
        KeyValueCircuit { data_to_verify: Vec::new() }
    }

    fn configure(meta: &mut ConstraintSystem<Fp>) -> Self::Config {
        configure_with_pattern(meta, "{\"[a-z]+\":\"[a-zA-Z0-9]+\"}")
    }

    fn synthesize(
        &self,
        config: Self::Config,
        mut layouter: impl Layouter<Fp>,
    ) -> Result<(), Error> {
        synthesize_input(
            &config,
            layouter.namespace(|| "Assign value"),
            self.data_to_verify.clone(),
        )
    }
}

#[test]
fn configure_compiles_sections_in_order() {
    let mut meta = ConstraintSystem::<Fp>::default();
    let config = configure_with_pattern(&mut meta, "{\"[a-z]+\"}");
    assert_eq!(config.gates.len(), 5);
    assert_eq!(config.gates[0].allowed, vec![b'{']);
    assert_eq!(config.gates[1].allowed, vec![b'"']);
    assert_eq!(config.gates[2].allowed.len(), 26);
    assert_eq!(config.gates[2].allowed[0], b'a');
    assert_eq!(config.gates[2].allowed[25], b'z');
    assert_eq!(config.gates[3].allowed, vec![b'"']);
    assert_eq!(config.gates[4].allowed, vec![b'}']);
}

#[test]
fn configure_rejects_malformed_pattern() {
    let mut meta = ConstraintSystem::<Fp>::default();
    let params = set_regex_check_config_params(String::from("{\"[a-z\"}"));
    let mut handle = ConstraintSystemRef { inner: &mut meta };
    assert!(RegexCheckConfig::configure(&mut handle, &params).is_err());
}

#[test]
fn configured_circuit_checks_plans() {
    let mut meta = ConstraintSystem::<Fp>::default();
    let config = configure_with_pattern(&mut meta, "{\"[a-z]+\"}");
    let good = config
        .assign(convert_input_to_verify_format(String::from("{\"abc\"}")))
        .unwrap();
    assert!(config.check_plan(&good));
    let bad = config
        .assign(convert_input_to_verify_format(String::from("{{\"abc\"}")))
        .unwrap();
    assert!(!config.check_plan(&bad));
}

#[test]
fn test_regex_check_1() {
    let k = 4;

    // Successful cases
    {
        let circuit = KeyOnlyCircuit {
            data_to_verify: convert_input_to_verify_format(String::from("{\"abc\"}")),
        };

        let run_result = MockProver::run(k, &circuit, vec![]);

        let prover = run_result.unwrap();
        prover.assert_satisfied();
    }

    // failed test case
    {
        let circuit = KeyOnlyCircuit {
            data_to_verify: convert_input_to_verify_format(String::from("{{\"abc\"}")),
        };
        let prover = MockProver::run(k, &circuit, vec![]).unwrap();
        let result = prover.verify();
        assert!(result.is_err());
    }
}

#[test]
fn test_regex_check_2() {
    let k = 6;

    // Successful cases
    {
        let circuit = KeyValueCircuit {
            data_to_verify: convert_input_to_verify_format(String::from("{\"abc\":\"abcDZ123\"}")),
        };

        let run_result = MockProver::run(k, &circuit, vec![]);

        let prover = run_result.unwrap();
        prover.assert_satisfied();
    }

    // failed test case
    {
        let circuit = KeyValueCircuit {
            data_to_verify: convert_input_to_verify_format(String::from("{\"abc7\":\"abc\"}")),
        };
        let prover = MockProver::run(k, &circuit, vec![]).unwrap();
        let result = prover.verify();
        assert!(result.is_err());
    }
}
