use p2p_file_sharing::{
    extract_file_name, find_file, mark_unmark, push_to_hash_map, remove_tuple_to_ls_response,
    select_downloading_files_to_send, select_sharing_files_to_send, set_transfer_flag, PeerAddr,
    Registry, RegistryItem,
};
use std::collections::HashMap;

fn downloads(entries: Vec<(PeerAddr, Vec<(String, bool)>)>) -> Registry<PeerAddr, String> {
    let mut reg = Registry::new();
    for (k, v) in entries {
        push_to_hash_map(&mut reg, k, v);
    }
    reg
}

fn shares(entries: Vec<(String, Vec<(PeerAddr, bool)>)>) -> Registry<String, PeerAddr> {
    let mut reg = Registry::new();
    for (k, v) in entries {
        push_to_hash_map(&mut reg, k, v);
    }
    reg
}

fn as_map<K: std::hash::Hash + Eq, V>(v: Vec<(K, V)>) -> HashMap<K, V> {
    v.into_iter().collect()
}

#[test]
fn extract_file_name_test() {
    assert_eq!(
        extract_file_name(String::from("D:/file.txt")),
        String::from("file.txt")
    );
    assert_eq!(
        extract_file_name(String::from("D://file.txt")),
        String::from("file.txt")
    );
    assert_eq!(
        extract_file_name(String::from("D:file.txt")),
        String::from("D:file.txt")
    );

    assert_eq!(
        extract_file_name(String::from("C:/Documents/work/resume.pdf")),
        String::from("resume.pdf")
    );
    assert_eq!(
        extract_file_name(String::from("movie.mp4")),
        String::from("movie.mp4")
    );
}

#[test]
fn extract_file_name_other_separators() {
    assert_eq!(
        extract_file_name(String::from("C:\\docs\\resume.pdf")),
        String::from("C:\\docs\\resume.pdf")
    );
    assert_eq!(
        extract_file_name(String::from("C:\\docs/work\\resume.pdf")),
        String::from("work\\resume.pdf")
    );
    assert_eq!(extract_file_name(String::from("dir/")), String::from(""));
    assert_eq!(extract_file_name(String::from("")), String::from(""));
    assert_eq!(extract_file_name(String::from("/a/b/c")), String::from("c"));
}

#[test]
fn find_file_test() {
    {
        let file_1_name = String::from("key.txt");
        let remote_addr = PeerAddr::v4(231, 0, 0, 1);

        let reg = downloads(vec![(remote_addr, vec![(file_1_name.clone(), false)])]);
        let result = vec![remote_addr];

        assert_eq!(find_file(&reg, file_1_name), Some(result));
    }

    {
        let file_1_name = String::from("key.txt");
        let remote_addr = PeerAddr::v4(231, 0, 0, 1);

        let reg = downloads(vec![(remote_addr, vec![(file_1_name.clone(), false)])]);

        assert_eq!(find_file(&reg, String::from("resume.pdf")), None);
    }

    {
        let reg = downloads(vec![]);
        assert_eq!(find_file(&reg, String::from("resume.pdf")), None);
    }
    {
        let file_1_name = String::from("Serious_sam.exe");
        let file_2_name = String::from("film.mp4");
        let file_3_name = String::from("resume.pdf");
        let remote_addr = PeerAddr::v4(231, 0, 0, 1);

        let reg = downloads(vec![(
            remote_addr,
            vec![
                (file_1_name.clone(), false),
                (file_2_name.clone(), false),
                (file_3_name.clone(), false),
            ],
        )]);

        let result = vec![remote_addr];

        assert_eq!(find_file(&reg, file_2_name), Some(result));
    }

    {
        let file_1_name = String::from("Serious_sam.exe");
        let file_2_name = String::from("film.mp4");
        let file_3_name = String::from("resume.pdf");

        let remote_addr_1 = PeerAddr::v4(231, 0, 0, 1);
        let remote_addr_2 = PeerAddr::v4(231, 0, 2, 1);

        let reg = downloads(vec![
            (
                remote_addr_1,
                vec![(file_1_name.clone(), false), (file_2_name.clone(), false)],
            ),
            (
                remote_addr_2,
                vec![
                    (file_3_name.clone(), false),
                    (file_2_name.clone(), false),
                    (file_1_name.clone(), false),
                ],
            ),
        ]);

        let f = find_file(&reg, file_2_name);
        assert_eq!(
            (f == Some(vec![remote_addr_1, remote_addr_2])
                || f == Some(vec![remote_addr_2, remote_addr_1])),
            true
        );
        assert_eq!(f.unwrap().len(), 2);
    }

    {
        let file_1_name = String::from("key.txt");
        let remote_addr = PeerAddr::v4(231, 0, 0, 1);

        let reg = downloads(vec![(remote_addr, vec![(file_1_name.clone(), true)])]);

        assert_eq!(find_file(&reg, file_1_name), None);
    }

    {
        let file_1_name = String::from("Serious_sam.exe");
        let file_2_name = String::from("film.mp4");
        let file_3_name = String::from("resume.pdf");

        let remote_addr_1 = PeerAddr::v4(231, 0, 0, 1);
        let remote_addr_2 = PeerAddr::v4(231, 0, 2, 1);

        let reg = downloads(vec![
            (
                remote_addr_1,
                vec![(file_1_name.clone(), false), (file_2_name.clone(), false)],
            ),
            (
                remote_addr_2,
                vec![
                    (file_3_name.clone(), false),
                    (file_2_name.clone(), true),
                    (file_1_name.clone(), false),
                ],
            ),
        ]);

        let f = find_file(&reg, file_2_name);
        assert_eq!(f, None);
    }
}

#[test]
fn find_file_any_busy_record_blocks() {
    let peer = PeerAddr::v4(10, 0, 0, 1);
    let reg = downloads(vec![(
        peer,
        vec![(String::from("a.txt"), false), (String::from("a.txt"), true)],
    )]);
    assert_eq!(find_file(&reg, String::from("a.txt")), None);
}

#[test]
fn remove_tuple_to_ls_response_test() {
    {
        let file_1_name = String::from("key.txt");
        let remote_addr = PeerAddr::v4(231, 0, 0, 1);

        let reg = downloads(vec![(remote_addr, vec![(file_1_name.clone(), false)])]);

        let mut result: HashMap<PeerAddr, Vec<String>> = HashMap::new();
        result.insert(remote_addr, vec![file_1_name.clone()]);

        assert_eq!(as_map(remove_tuple_to_ls_response(&reg)), result);
    }

    {
        let file_1_name = String::from("D:/Games/Serious_sam.exe");
        let file_2_name = String::from("D:/free/film.mp4");
        let file_3_name = String::from("C:/resume.pdf");
        let file_4_name = String::from("crypt.txt");
        let file_5_name = String::from("key.txt");
        let remote_addr = PeerAddr::v4(231, 0, 0, 1);

        let reg = downloads(vec![(
            remote_addr,
            vec![
                (file_1_name.clone(), false),
                (file_2_name.clone(), false),
                (file_3_name.clone(), true),
                (file_4_name.clone(), true),
                (file_5_name.clone(), false),
            ],
        )]);

        let mut result: HashMap<PeerAddr, Vec<String>> = HashMap::new();
        result.insert(
            remote_addr,
            vec![
                file_1_name.clone(),
                file_2_name.clone(),
                file_3_name.clone(),
                file_4_name.clone(),
                file_5_name.clone(),
            ],
        );

        assert_eq!(as_map(remove_tuple_to_ls_response(&reg)), result);
    }

    {
        let file_1_name = String::from("D:/Games/Serious_sam.exe");
        let file_2_name = String::from("D:/free/film.mp4");
        let file_3_name = String::from("C:/resume.pdf");
        let file_4_name = String::from("crypt.txt");
        let file_5_name = String::from("key.txt");
        let remote_addr_1 = PeerAddr::v4(231, 0, 0, 1);
        let remote_addr_2 = PeerAddr::v4(231, 2, 0, 1);

        let reg = downloads(vec![
            (
                remote_addr_1,
                vec![
                    (file_1_name.clone(), false),
                    (file_2_name.clone(), false),
                    (file_3_name.clone(), true),
                ],
            ),
            (
                remote_addr_2,
                vec![(file_4_name.clone(), false), (file_5_name.clone(), true)],
            ),
        ]);

        let mut result: HashMap<PeerAddr, Vec<String>> = HashMap::new();
        result.insert(
            remote_addr_1,
            vec![
                file_1_name.clone(),
                file_2_name.clone(),
                file_3_name.clone(),
            ],
        );

        result.insert(
            remote_addr_2,
            vec![file_4_name.clone(), file_5_name.clone()],
        );

        assert_eq!(as_map(remove_tuple_to_ls_response(&reg)), result);
    }
}

fn pair_of<K: RegistryItem, V: RegistryItem + Clone + PartialEq>(
    reg: &Registry<K, V>,
    key: &K,
    pair: (V, bool),
) -> Option<(V, bool)> {
    reg.get(key)
        .unwrap()
        .iter()
        .find(|x| x.0 == pair.0 && x.1 == pair.1)
        .cloned()
}

#[test]
fn mark_unmark_share_test() {
    {
        let file_1_name = String::from("D:/film/movie.mkv");
        let remote_addr = PeerAddr::v4(231, 0, 0, 1);

        let mut reg = shares(vec![(file_1_name.clone(), vec![(remote_addr, false)])]);

        mark_unmark(&mut reg, file_1_name.clone(), remote_addr, true);
        assert_eq!(
            pair_of(&reg, &file_1_name, (remote_addr, true)),
            Some((remote_addr, true))
        );

        mark_unmark(&mut reg, file_1_name.clone(), remote_addr, false);
        assert_eq!(
            pair_of(&reg, &file_1_name, (remote_addr, false)),
            Some((remote_addr, false))
        );
    }
}

#[test]
fn mark_unmark_downloading_test() {
    {
        let file_1_name = String::from("key.txt");
        let file_2_name = String::from("cpp_book.djvu");
        let remote_addr = PeerAddr::v4(231, 0, 0, 1);

        let mut reg = downloads(vec![(
            remote_addr,
            vec![(file_1_name.clone(), false), (file_2_name.clone(), false)],
        )]);

        mark_unmark(&mut reg, remote_addr, file_2_name.clone(), true);
        assert_eq!(
            pair_of(&reg, &remote_addr, (file_2_name.clone(), true)),
            Some((file_2_name.clone(), true))
        );

        mark_unmark(&mut reg, remote_addr, file_2_name.clone(), false);
        assert_eq!(
            pair_of(&reg, &remote_addr, (file_2_name.clone(), false)),
            Some((file_2_name.clone(), false))
        );
    }
}

#[test]
fn mark_then_unmark_restores_every_pair() {
    let a = PeerAddr::v4(1, 2, 3, 4);
    let b = PeerAddr::v4(5, 6, 7, 8);
    let mut reg = downloads(vec![
        (a, vec![(String::from("x"), false), (String::from("y"), true)]),
        (b, vec![(String::from("x"), false)]),
    ]);
    mark_unmark(&mut reg, a, String::from("x"), true);
    assert_eq!(reg.get(&a).unwrap()[0], (String::from("x"), true));
    assert_eq!(reg.get(&b).unwrap()[0], (String::from("x"), false));
    mark_unmark(&mut reg, a, String::from("x"), false);
    assert_eq!(
        reg.get(&a).unwrap(),
        &vec![(String::from("x"), false), (String::from("y"), true)]
    );
    assert_eq!(reg.get(&b).unwrap(), &vec![(String::from("x"), false)]);
}

#[test]
fn push_to_hash_map_appends_to_existing_key() {
    let a = PeerAddr::v4(1, 1, 1, 1);
    let mut reg = downloads(vec![(a, vec![(String::from("x"), false)])]);
    push_to_hash_map(&mut reg, a, vec![(String::from("y"), false)]);
    assert_eq!(reg.len(), 1);
    assert_eq!(
        reg.get(&a).unwrap(),
        &vec![(String::from("x"), false), (String::from("y"), false)]
    );
}

#[test]
fn set_transfer_flag_appends_missing_pair() {
    let a = PeerAddr::v4(9, 9, 9, 9);
    let mut reg = shares(vec![(String::from("/srv/a.bin"), vec![])]);
    set_transfer_flag(&mut reg, String::from("/srv/a.bin"), a, true);
    assert_eq!(reg.get(&String::from("/srv/a.bin")).unwrap(), &vec![(a, true)]);
    set_transfer_flag(&mut reg, String::from("/srv/a.bin"), a, false);
    assert_eq!(reg.get(&String::from("/srv/a.bin")).unwrap(), &vec![(a, false)]);
}

#[test]
fn select_downloading_files_to_send_test() {
    {
        let file_name = String::from("D:/film/movie.mkv");

        let reg = downloads(vec![(PeerAddr::v4(231, 0, 0, 1), vec![(file_name, false)])]);

        let result: HashMap<String, Vec<PeerAddr>> = HashMap::new();

        assert_eq!(as_map(select_downloading_files_to_send(&reg)), result);
    }

    {
        let file_name = String::from("D:/film/movie.mkv");
        let remote_addr = PeerAddr::v4(231, 0, 0, 1);

        let reg = downloads(vec![(remote_addr, vec![(file_name.clone(), true)])]);

        let mut result: HashMap<String, Vec<PeerAddr>> = HashMap::new();
        result.insert(file_name, vec![remote_addr]);

        assert_eq!(as_map(select_downloading_files_to_send(&reg)), result);
    }

    {
        let file_1_name = String::from("D:/film/movie.mkv");
        let file_2_name = String::from("C:/docs/resume.pdf");
        let remote_addr = PeerAddr::v4(231, 0, 0, 1);

        let reg = downloads(vec![(
            remote_addr,
            vec![(file_1_name.clone(), false), (file_2_name.clone(), true)],
        )]);

        let mut result: HashMap<String, Vec<PeerAddr>> = HashMap::new();
        result.insert(file_2_name, vec![remote_addr]);

        assert_eq!(as_map(select_downloading_files_to_send(&reg)), result);
    }

    {
        let file_1_name = String::from("D:/film/movie.mkv");
        let file_2_name = String::from("C:/docs/resume.pdf");
        let remote_addr = PeerAddr::v4(231, 0, 0, 1);

        let reg = downloads(vec![(
            remote_addr,
            vec![(file_1_name.clone(), true), (file_2_name.clone(), true)],
        )]);

        let mut result: HashMap<String, Vec<PeerAddr>> = HashMap::new();
        result.insert(file_1_name, vec![remote_addr]);
        result.insert(file_2_name, vec![remote_addr]);

        assert_eq!(as_map(select_downloading_files_to_send(&reg)), result);
    }

    {
        let file_1_name = String::from("D:/film/movie.mkv");
        let file_2_name = String::from("C:/docs/resume.pdf");
        let file_3_name = String::from("D:/free/film.mp4");
        let remote_addr_1 = PeerAddr::v4(231, 0, 0, 1);
        let remote_addr_2 = PeerAddr::v4(45, 67, 0, 12);

        let reg = downloads(vec![
            (
                remote_addr_1,
                vec![(file_1_name.clone(), false), (file_2_name.clone(), true)],
            ),
            (
                remote_addr_2,
                vec![(file_2_name.clone(), true), (file_3_name.clone(), false)],
            ),
        ]);

        let mut result_var_1: HashMap<String, Vec<PeerAddr>> = HashMap::new();
        result_var_1.insert(file_2_name.clone(), vec![remote_addr_1, remote_addr_2]);

        let mut result_var_2: HashMap<String, Vec<PeerAddr>> = HashMap::new();
        result_var_2.insert(file_2_name, vec![remote_addr_2, remote_addr_1]);

        let x = as_map(select_downloading_files_to_send(&reg));
        assert_eq!((x == result_var_1 || x == result_var_2), true);
    }
}

#[test]
fn select_sharing_files_to_send_test() {
    {
        let file_name = String::from("D:/film/movie.mkv");
        let reg = shares(vec![(
            file_name.clone(),
            vec![
                (PeerAddr::v4(231, 0, 0, 1), false),
                (PeerAddr::v4(45, 67, 0, 12), false),
            ],
        )]);

        let mut result: HashMap<String, Vec<PeerAddr>> = HashMap::new();
        result.insert(file_name, vec![]);

        assert_eq!(as_map(select_sharing_files_to_send(&reg)), result);
    }

    {
        let file_name = String::from("D:/film/movie.mkv");
        let reg = shares(vec![(file_name.clone(), vec![])]);

        let mut result: HashMap<String, Vec<PeerAddr>> = HashMap::new();
        result.insert(file_name, vec![]);

        assert_eq!(as_map(select_sharing_files_to_send(&reg)), result);
    }

    {
        let reg: Registry<String, PeerAddr> = Registry::new();
        assert_eq!(select_sharing_files_to_send(&reg).is_empty(), true);
    }

    {
        let file_name = String::from("C:/docs/resume.pdf");
        let reg = shares(vec![(
            file_name.clone(),
            vec![
                (PeerAddr::v4(231, 0, 0, 1), false),
                (PeerAddr::v4(45, 67, 0, 12), true),
                (PeerAddr::v4(91, 0, 4, 14), false),
            ],
        )]);

        let mut result: HashMap<String, Vec<PeerAddr>> = HashMap::new();
        result.insert(file_name, vec![PeerAddr::v4(45, 67, 0, 12)]);

        assert_eq!(as_map(select_sharing_files_to_send(&reg)), result);
    }

    {
        let file_1_name = String::from("D:/Games/Serious_sam.exe");
        let file_2_name = String::from("D:/free/film.mp4");
        let file_3_name = String::from("C:/resume.pdf");
        let file_4_name = String::from("crypt.txt");

        let reg = shares(vec![
            (
                file_1_name.clone(),
                vec![
                    (PeerAddr::v4(231, 0, 0, 1), true),
                    (PeerAddr::v4(45, 67, 0, 12), true),
                    (PeerAddr::v4(74, 24, 9, 6), true),
                    (PeerAddr::v4(64, 244, 92, 76), true),
                ],
            ),
            (
                file_2_name.clone(),
                vec![
                    (PeerAddr::v4(74, 24, 9, 6), false),
                    (PeerAddr::v4(231, 0, 0, 1), false),
                ],
            ),
            (
                file_3_name.clone(),
                vec![
                    (PeerAddr::v4(64, 244, 92, 76), true),
                    (PeerAddr::v4(231, 0, 0, 1), false),
                ],
            ),
            (file_4_name.clone(), vec![]),
        ]);

        let mut result: HashMap<String, Vec<PeerAddr>> = HashMap::new();
        result.insert(
            file_1_name,
            vec![
                PeerAddr::v4(231, 0, 0, 1),
                PeerAddr::v4(45, 67, 0, 12),
                PeerAddr::v4(74, 24, 9, 6),
                PeerAddr::v4(64, 244, 92, 76),
            ],
        );

        result.insert(file_2_name, vec![]);
        result.insert(file_3_name, vec![PeerAddr::v4(64, 244, 92, 76)]);
        result.insert(file_4_name, vec![]);

        assert_eq!(as_map(select_sharing_files_to_send(&reg)), result);
    }
}

#[test]
fn peer_addr_v4_is_big_endian_number() {
    assert_eq!(PeerAddr::v4(1, 2, 3, 4), PeerAddr::V4(0x01020304));
    assert_eq!(PeerAddr::v4(255, 255, 255, 255), PeerAddr::V4(u32::MAX));
}
