use fri_fold::field::Fe;
use fri_fold::fri::{fold_polynomial, next_domain, next_fri_layer, next_layer};
use fri_fold::polynomial::Polynomial;

type FE = Fe<293>;
type G7 = Fe<7>;
type GW = Fe<18446744069414584321>;

fn poly(coefficients: Vec<u64>) -> Polynomial<293> {
    let mut elements: Vec<FE> = Vec::new();
    for c in coefficients {
        elements.push(FE::new(c));
    }
    Polynomial::new(elements)
}

fn p0() -> Polynomial<293> {
    poly(vec![3, 1, 2, 7, 3, 5])
}

#[test]
fn test_fold() {
    let p0 = p0();
    let beta = FE::new(4);
    let p1 = fold_polynomial(&p0, &beta);
    assert_eq!(p1, poly(vec![7, 30, 23]));

    let gamma = FE::new(3);
    let p2 = fold_polynomial(&p1, &gamma);
    assert_eq!(p2, poly(vec![97, 23]));

    let delta = FE::new(2);
    let p3 = fold_polynomial(&p2, &delta);
    assert_eq!(p3, poly(vec![143]));
    assert_eq!(p3.degree(), 0);
}

#[test]
fn test_next_domain() {
    let input = vec![
        FE::new(5),
        FE::new(7),
        FE::new(13),
        FE::new(20),
        FE::new(1),
        FE::new(1),
        FE::new(1),
        FE::new(1),
    ];
    let ret_next_domain = next_domain(&input);
    assert_eq!(
        ret_next_domain,
        vec![FE::new(25), FE::new(49), FE::new(169), FE::new(107)]
    );

    let ret_next_domain_2 = next_domain(&ret_next_domain);
    assert_eq!(ret_next_domain_2, vec![FE::new(39), FE::new(57)]);

    let ret_next_domain_3 = next_domain(&ret_next_domain_2);
    assert_eq!(ret_next_domain_3, vec![FE::new(56)]);
}

#[test]
fn test_next_layer() {
    let p0 = p0();
    let domain = vec![FE::new(5), FE::new(9)];
    let eval = next_layer(&p0, &domain);
    assert_eq!(eval, vec![FE::new(267), FE::new(249)]);
}

#[test]
fn text_next_fri_layer() {
    let p0 = p0();
    let beta = FE::new(4);
    let input_domain = vec![
        FE::new(5),
        FE::new(7),
        FE::new(13),
        FE::new(20),
        FE::new(1),
        FE::new(1),
        FE::new(1),
        FE::new(1),
    ];

    let (p1, ret_next_domain, ret_evaluation) = next_fri_layer(&p0, &input_domain, &beta);

    assert_eq!(p1, poly(vec![7, 30, 23]));
    assert_eq!(
        ret_next_domain,
        vec![FE::new(25), FE::new(49), FE::new(169), FE::new(107)]
    );
    assert_eq!(
        ret_evaluation,
        vec![FE::new(189), FE::new(151), FE::new(93), FE::new(207)]
    );
}

#[test]
fn fold_engine_is_deterministic() {
    let p0 = p0();
    let beta = FE::new(4);
    let domain = vec![FE::new(5), FE::new(9), FE::new(13), FE::new(20)];
    assert_eq!(fold_polynomial(&p0, &beta), fold_polynomial(&p0, &beta));
    assert_eq!(next_domain(&domain), next_domain(&domain));
    assert_eq!(next_layer(&p0, &domain), next_layer(&p0, &domain));
}

#[test]
fn fold_halves_coefficient_count_rounding_up() {
    let beta = FE::new(11);
    assert_eq!(fold_polynomial(&poly(vec![1, 2, 3, 4, 5, 6]), &beta).len(), 3);
    assert_eq!(fold_polynomial(&poly(vec![1, 2, 3, 4, 5]), &beta).len(), 3);
    assert_eq!(fold_polynomial(&poly(vec![9]), &beta).len(), 1);
    assert_eq!(fold_polynomial(&poly(vec![]), &beta).len(), 0);
}

#[test]
fn next_domain_halves_length_rounding_down() {
    let odd = vec![FE::new(2), FE::new(3), FE::new(4), FE::new(5), FE::new(6)];
    assert_eq!(next_domain(&odd), vec![FE::new(4), FE::new(9)]);
    let empty: Vec<FE> = Vec::new();
    assert_eq!(next_domain(&empty), empty);
    let single = vec![FE::new(17)];
    assert_eq!(next_domain(&single), Vec::<FE>::new());
}

#[test]
fn zero_beta_keeps_even_coefficients() {
    let p0 = p0();
    let folded = fold_polynomial(&p0, &FE::new(0));
    assert_eq!(folded, poly(vec![3, 2, 3]));
}

#[test]
fn next_layer_matches_pointwise_evaluation() {
    let p0 = p0();
    let domain = vec![FE::new(5), FE::new(9), FE::new(0), FE::new(292)];
    let table = next_layer(&p0, &domain);
    assert_eq!(table.len(), domain.len());
    for (i, x) in domain.iter().enumerate() {
        assert_eq!(table[i], p0.evaluate(x));
    }
}

#[test]
fn next_fri_layer_composes_the_three_primitives() {
    let p0 = p0();
    let beta = FE::new(4);
    let domain = vec![
        FE::new(5),
        FE::new(7),
        FE::new(13),
        FE::new(20),
        FE::new(1),
        FE::new(1),
        FE::new(1),
        FE::new(1),
    ];
    let (folded, new_domain, table) = next_fri_layer(&p0, &domain, &beta);
    assert_eq!(folded, fold_polynomial(&p0, &beta));
    assert_eq!(new_domain, next_domain(&domain));
    assert_eq!(table, next_layer(&fold_polynomial(&p0, &beta), &next_domain(&domain)));
}

#[test]
fn evaluation_handles_degenerate_polynomials() {
    let empty = poly(vec![]);
    assert_eq!(empty.evaluate(&FE::new(42)).representative(), 0);
    let constant = poly(vec![200]);
    assert_eq!(constant.evaluate(&FE::new(42)).representative(), 200);
    assert_eq!(next_layer(&empty, &vec![FE::new(1), FE::new(2)]), vec![
        FE::new(0),
        FE::new(0),
    ]);
}

#[test]
fn degree_skips_trailing_zero_coefficients() {
    assert_eq!(poly(vec![1, 2, 0]).degree(), 1);
    assert_eq!(poly(vec![0, 0, 0]).degree(), 0);
    assert_eq!(poly(vec![]).degree(), 0);
    assert_eq!(poly(vec![0, 0, 4, 9]).degree(), 3);
}

#[test]
fn field_constructor_reduces_modulo_the_order() {
    assert_eq!(FE::new(300).representative(), 7);
    assert_eq!(FE::new(293).representative(), 0);
    assert_eq!(FE::new(292).representative(), 292);
}

#[test]
fn engine_works_over_another_modulus() {
    let p = Polynomial::<7>::new(vec![G7::new(6), G7::new(5), G7::new(4)]);
    let folded = fold_polynomial(&p, &G7::new(2));
    // even part (6, 4) plus 2 * (5, 0) = (16, 4) = (2, 4) mod 7
    assert_eq!(folded, Polynomial::<7>::new(vec![G7::new(2), G7::new(4)]));
    assert_eq!(p.evaluate(&G7::new(3)).representative(), (6 + 5 * 3 + 4 * 9) % 7);
}

#[test]
fn multiplication_is_exact_near_the_word_size() {
    // the modulus 2^64 - 2^32 + 1 exercises the widened product path
    let minus_one = GW::new(18446744069414584320);
    let domain = vec![minus_one, GW::new(5)];
    // (-1)^2 == 1
    assert_eq!(next_domain(&domain), vec![GW::new(1)]);
}
