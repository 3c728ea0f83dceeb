use fraud_detection::encode::{fit_encode, is_money_slot, one_hot, EncodingTables};
use fraud_detection::evaluate::{check_training, evaluate, Accuracy, PipelineError};
use fraud_detection::graph::{edge_weight, TransactionGraph};
use fraud_detection::pipeline::{prepare, MAX_EPOCHS, SAMPLE_SIZE, SPLIT_DEN, SPLIT_NUM};
use fraud_detection::record::{clean_record, has_account_prefix, tx_type_of, Transaction, TxType,
    FLAG_THRESHOLD_CENTS};
use fraud_detection::split::{split_dataset, split_point};
use rand::rngs::StdRng;
use rand::SeedableRng;

fn tx(ttype: &str, amount: u64, orig: &str, dest: &str, is_fraud: u8) -> Transaction {
    Transaction {
        step: 1,
        ttype: ttype.to_string(),
        amount,
        name_orig: orig.to_string(),
        old_balance_orig: 50_000,
        new_balance_orig: 40_000,
        name_dest: dest.to_string(),
        old_balance_dest: 0,
        new_balance_dest: 10_000,
        is_fraud,
        is_flagged_fraud: 0,
    }
}

#[test]
fn payment_record_graph_and_features() {
    let recs = vec![tx("PAYMENT", 10_000, "C1", "M2", 0)];
    let g = TransactionGraph::build_graph(&recs);
    assert_eq!(g.node_count(), 2);
    assert_eq!(g.edge_count(), 1);
    assert_eq!(g.node_name(0), Some("C1".to_string()));
    assert_eq!(g.node_name(1), Some("M2".to_string()));
    assert_eq!(g.out_edges(0), vec![(1, 10_000u128)]);
    assert_eq!(g.out_edges(1), vec![]);

    let (tables, rows, labels) = fit_encode(&recs);
    assert_eq!(
        rows[0],
        vec![1, 0, 0, 0, 1, 0, 10_000, 0, 50_000, 40_000, 0, 0, 10_000, 0]
    );
    assert_eq!(labels, vec![0]);
    assert_eq!(tables.orig_ordinal(&"C1".to_string()), 0);
}

#[test]
fn unknown_type_is_dropped_by_filter() {
    assert!(clean_record(tx("UNKNOWN", 100, "C1", "M2", 0), FLAG_THRESHOLD_CENTS).is_none());
    assert!(clean_record(tx("CASH-IN", 100, "C1", "M2", 0), FLAG_THRESHOLD_CENTS).is_none());
    assert!(clean_record(tx("PAYMENT", 100, "X1", "M2", 0), FLAG_THRESHOLD_CENTS).is_none());
    assert!(clean_record(tx("PAYMENT", 100, "C1", "", 0), FLAG_THRESHOLD_CENTS).is_none());
    let kept = clean_record(tx("CASH_IN", 100, "M123", "C456", 0), FLAG_THRESHOLD_CENTS).unwrap();
    assert_eq!(kept.is_flagged_fraud, 0);
    assert_eq!(kept.name_orig, "M123");
}

#[test]
fn large_amount_is_flagged() {
    let over = clean_record(tx("TRANSFER", 20_000_001, "C1", "C2", 0), FLAG_THRESHOLD_CENTS).unwrap();
    assert_eq!(over.is_flagged_fraud, 1);
    let at = clean_record(tx("TRANSFER", 20_000_000, "C1", "C2", 0), FLAG_THRESHOLD_CENTS).unwrap();
    assert_eq!(at.is_flagged_fraud, 0);
}

#[test]
fn ten_fraud_records_and_full_sample() {
    let mut recs = Vec::new();
    for i in 0..10 {
        recs.push(tx("TRANSFER", 5_000, &format!("C{}", i), &format!("C{}", (i + 1) % 10), 1));
    }
    let g = TransactionGraph::build_graph(&recs);
    assert_eq!(g.node_count(), 10);
    assert_eq!(g.edge_count(), 10);
    for i in 0..10 {
        assert_eq!(g.out_edges(i), vec![((i + 1) % 10, 10_000u128)]);
    }
    let mut rng = StdRng::seed_from_u64(42);
    let mut picked = g.sample_nodes(SAMPLE_SIZE, &mut rng);
    picked.sort();
    assert_eq!(picked, (0..10).collect::<Vec<usize>>());
}

#[test]
fn sample_is_capped_by_node_count() {
    let recs = vec![tx("DEBIT", 1, "C1", "C2", 0), tx("DEBIT", 1, "C2", "C3", 0)];
    let g = TransactionGraph::build_graph(&recs);
    let mut rng = StdRng::seed_from_u64(1);
    let mut all = g.sample_nodes(10, &mut rng);
    all.sort();
    assert_eq!(all, vec![0, 1, 2]);
    let two = g.sample_nodes(2, &mut rng);
    assert_eq!(two.len(), 2);
    assert_ne!(two[0], two[1]);
    assert!(two.iter().all(|&i| i < 3));
}

#[test]
fn repeated_accounts_share_nodes_and_keep_parallel_edges() {
    let recs = vec![
        tx("PAYMENT", 100, "C1", "M2", 0),
        tx("PAYMENT", 300, "C1", "M2", 1),
        tx("CASH_OUT", 50, "M2", "C1", 0),
    ];
    let g = TransactionGraph::build_graph(&recs);
    assert_eq!(g.node_count(), 2);
    assert_eq!(g.edge_count(), 3);
    assert_eq!(g.out_edges(0), vec![(1, 100u128), (1, 600u128)]);
    assert_eq!(g.out_edges(1), vec![(0, 50u128)]);
    assert_eq!(g.node_name(2), None);
}

#[test]
fn empty_stream_builds_empty_graph() {
    let g = TransactionGraph::build_graph(&Vec::new());
    assert_eq!(g.node_count(), 0);
    assert_eq!(g.edge_count(), 0);
    let mut rng = StdRng::seed_from_u64(3);
    assert!(g.sample_nodes(10, &mut rng).is_empty());
}

#[test]
fn fraud_weight_doubles_amount() {
    assert_eq!(edge_weight(&tx("PAYMENT", 12_345, "C1", "M2", 1)), 24_690);
    assert_eq!(edge_weight(&tx("PAYMENT", 12_345, "C1", "M2", 0)), 12_345);
    assert_eq!(edge_weight(&tx("PAYMENT", u64::MAX, "C1", "M2", 1)), 2 * (u64::MAX as u128));
}

#[test]
fn one_hot_slots_follow_category_order() {
    assert_eq!(one_hot(&"CASH_IN".to_string()), vec![1, 0, 0, 0, 0]);
    assert_eq!(one_hot(&"CASH_OUT".to_string()), vec![0, 1, 0, 0, 0]);
    assert_eq!(one_hot(&"DEBIT".to_string()), vec![0, 0, 1, 0, 0]);
    assert_eq!(one_hot(&"PAYMENT".to_string()), vec![0, 0, 0, 1, 0]);
    assert_eq!(one_hot(&"TRANSFER".to_string()), vec![0, 0, 0, 0, 1]);
    assert_eq!(one_hot(&"UNKNOWN".to_string()), vec![0, 0, 0, 0, 0]);
    assert_eq!(tx_type_of(&"DEBIT".to_string()), Some(TxType::Debit));
    assert_eq!(TxType::Transfer.slot(), 4);
}

#[test]
fn account_prefix_rule() {
    assert!(has_account_prefix(&"C42".to_string()));
    assert!(has_account_prefix(&"M".to_string()));
    assert!(!has_account_prefix(&"c42".to_string()));
    assert!(!has_account_prefix(&"".to_string()));
}

#[test]
fn ordinals_follow_first_sight() {
    let recs = vec![
        tx("PAYMENT", 1, "C9", "M1", 0),
        tx("PAYMENT", 1, "C7", "M1", 1),
        tx("PAYMENT", 1, "C9", "M3", 0),
    ];
    let (tables, rows, labels) = fit_encode(&recs);
    assert_eq!(rows.iter().map(|r| r[7]).collect::<Vec<_>>(), vec![0, 1, 0]);
    assert_eq!(rows.iter().map(|r| r[10]).collect::<Vec<_>>(), vec![0, 0, 1]);
    assert_eq!(labels, vec![0, 1, 0]);
    assert_eq!(tables.orig_ordinal(&"C7".to_string()), 1);
    assert_eq!(tables.dest_ordinal(&"M3".to_string()), 1);
    assert_eq!(tables.orig_ordinal(&"C_unseen".to_string()), 0);
    let encoded = tables.encode(&tx("CASH_IN", 5, "C404", "M3", 0));
    assert_eq!(encoded[7], 0);
    assert_eq!(encoded[10], 1);
    assert_eq!(encoded[1], 1);
}

#[test]
fn empty_encoding_and_fresh_tables() {
    let (tables, rows, labels) = fit_encode(&Vec::new());
    assert!(rows.is_empty());
    assert!(labels.is_empty());
    assert_eq!(tables.orig_ordinal(&"C1".to_string()), 0);
    assert_eq!(EncodingTables::new().dest_ordinal(&"M1".to_string()), 0);
}

#[test]
fn money_slots() {
    let slots: Vec<usize> = (0..14).filter(|&j| is_money_slot(j)).collect();
    assert_eq!(slots, vec![6, 8, 9, 11, 12]);
}

#[test]
fn split_is_positional_floor() {
    assert_eq!(split_point(10, 7, 10), 7);
    assert_eq!(split_point(3, 7, 10), 2);
    assert_eq!(split_point(1, 7, 10), 0);
    assert_eq!(split_point(0, 7, 10), 0);
    let (train, test) = split_dataset((0..10).collect::<Vec<u32>>(), SPLIT_NUM, SPLIT_DEN);
    assert_eq!(train, vec![0, 1, 2, 3, 4, 5, 6]);
    assert_eq!(test, vec![7, 8, 9]);
    let (train, test) = split_dataset(Vec::<u32>::new(), 1, 2);
    assert!(train.is_empty() && test.is_empty());
    let (train, test) = split_dataset(vec![5u32], 99, 100);
    assert!(train.is_empty());
    assert_eq!(test, vec![5]);
}

#[test]
fn accuracy_counts_agreements() {
    assert_eq!(
        evaluate(&vec![1, 0, 0, 1], &vec![1, 1, 0, 1]),
        Ok(Accuracy { correct: 3, total: 4 })
    );
    assert_eq!(evaluate(&vec![0], &vec![1]), Ok(Accuracy { correct: 0, total: 1 }));
    assert_eq!(evaluate(&vec![], &vec![]), Err(PipelineError::InsufficientData));
    assert_eq!(evaluate(&vec![1], &vec![1, 0]), Err(PipelineError::LengthMismatch));
}

#[test]
fn training_checks() {
    assert_eq!(check_training(0, 0, 10), Err(PipelineError::EmptyDataset));
    assert_eq!(check_training(5, 3, 0), Err(PipelineError::NoEpochs));
    assert_eq!(check_training(5, 0, 10), Err(PipelineError::InsufficientData));
    assert_eq!(check_training(5, 5, 10), Err(PipelineError::InsufficientData));
    assert_eq!(check_training(5, 3, 10), Ok(()));
}

#[test]
fn prepare_splits_encoded_rows() {
    let mut recs = Vec::new();
    for i in 0..10u8 {
        recs.push(tx("CASH_OUT", 100 + i as u64, &format!("C{}", i), "M0", i % 2));
    }
    let p = prepare(&recs, SPLIT_NUM, SPLIT_DEN, MAX_EPOCHS).ok().unwrap();
    assert_eq!(p.train_rows.len(), 7);
    assert_eq!(p.test_rows.len(), 3);
    assert_eq!(p.train_labels, vec![0, 1, 0, 1, 0, 1, 0]);
    assert_eq!(p.test_labels, vec![1, 0, 1]);
    assert_eq!(p.test_rows[0][6], 107);
    assert_eq!(p.test_rows[0][7], 7);
    assert!(matches!(prepare(&Vec::new(), 7, 10, 10), Err(PipelineError::EmptyDataset)));
    assert!(matches!(prepare(&recs, 7, 10, 0), Err(PipelineError::NoEpochs)));
    assert!(matches!(prepare(&recs[..1].to_vec(), 7, 10, 10), Err(PipelineError::InsufficientData)));
}
