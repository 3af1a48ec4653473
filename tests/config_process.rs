use attpc_merger::config::Config;
use attpc_merger::file_copier::FileCopier;
use attpc_merger::process::create_subsets;

#[test]
fn partition_round_robin() {
    let mut c = Config::default();
    c.n_threads = 3;
    c.first_run_number = 0;
    c.last_run_number = 6;
    assert_eq!(create_subsets(&c), vec![vec![0, 3, 6], vec![1, 4], vec![2, 5]]);
}

#[test]
fn partition_empty_range() {
    let mut c = Config::default();
    c.first_run_number = 10;
    c.last_run_number = 9;
    c.n_threads = 2;
    let s = create_subsets(&c);
    assert_eq!(s.len(), 2);
    assert!(s.iter().all(|v| v.is_empty()));
}

#[test]
fn partition_covers_range_once() {
    let mut c = Config::default();
    c.first_run_number = -3;
    c.last_run_number = 17;
    c.n_threads = 4;
    let s = create_subsets(&c);
    let mut all: Vec<i32> = s.iter().flatten().copied().collect();
    all.sort();
    assert_eq!(all, (-3..=17).collect::<Vec<i32>>());
    let max = s.iter().map(|v| v.len()).max().unwrap();
    let min = s.iter().map(|v| v.len()).min().unwrap();
    assert!(max - min <= 1);
}

#[test]
fn config_defaults() {
    let c = Config::default();
    assert_eq!(c.graw_path, "None");
    assert_eq!(c.hdf_path, "None");
    assert!(c.evt_path.is_none());
    assert_eq!(c.n_threads, 1);
    assert!(c.is_n_threads_valid());
    assert!(!c.has_evt_path());
    assert!(!c.need_copy_files());
    assert!(!c.delete_copied_files());
}

#[test]
fn config_paths() {
    let mut c = Config::default();
    c.graw_path = String::from("/data/graw");
    c.hdf_path = String::from("/out/");
    c.evt_path = Some(String::from("/data/evt"));
    c.copy_path = Some(String::from("/stage"));
    c.experiment = String::from("e20009");
    assert_eq!(c.get_run_str(7), "run_0007");
    assert_eq!(c.get_run_str(12345), "run_12345");
    assert_eq!(c.get_run_str(-5), "run_00-5");
    assert_eq!(c.get_run_directory(7, &3), "/data/graw/run_0007/mm3");
    assert_eq!(c.get_hdf_file_name(12), "/out/run_0012.h5");
    assert_eq!(c.get_evt_directory(7), Some(String::from("/data/evt/run7")));
    assert_eq!(c.get_copy_directory(7), Some(String::from("/stage/run_7")));
    assert_eq!(
        c.get_online_directory(7, &10),
        "/Network/Servers/mm10.local/Users/attpc/Data/mm10/e20009/run_0007"
    );
    assert!(c.delete_copied_files());
    c.delete_copied = false;
    assert!(!c.delete_copied_files());
}

#[test]
fn config_cobo_selection() {
    let mut c = Config::default();
    c.merge_silicon = false;
    assert!(c.merges_cobo(0));
    assert!(!c.merges_cobo(10));
    c.merge_atttpc = false;
    c.merge_silicon = true;
    assert!(!c.merges_cobo(9));
    assert!(c.merges_cobo(10));
}

#[test]
fn file_copier_totals() {
    let entries = vec![
        (String::from("a"), String::from("b"), 10u64),
        (String::from("c"), String::from("d"), 32u64),
    ];
    let fc = FileCopier::new(entries.clone()).unwrap();
    assert_eq!(fc.get_total_data_size(), 42);
    assert_eq!(fc.copy_meta(), &entries);
    let huge = vec![
        (String::from("a"), String::from("b"), u64::MAX),
        (String::from("c"), String::from("d"), 1u64),
    ];
    assert!(FileCopier::new(huge).is_none());
    assert_eq!(FileCopier::empty().get_total_data_size(), 0);
}
