use trace_diary::diary::{
    begin_save, blob_filename, save_diary_at, DateError, DiaryError, SaveDiaryInput,
};
use trace_diary::diary_repo::{upsert_row, DiaryMeta, HistoricalMeta, UpsertDailyInput};
use trace_diary::encryption::CryptoError;
use trace_diary::envelope::{parse_envelope, render_envelope, EncryptedPayload};
use trace_diary::history::{
    historical_diaries, historical_diary, list_historical_diaries,
    preview_first_non_empty_lines, HistoricalDiary, HistoryQuery,
};
use trace_diary::state::AppState;

/// The preview as it is commonly written with `lines` and `trim`.
fn lines_and_trim(content: &str, max_lines: usize) -> String {
    let mut out = Vec::new();
    for line in content.lines() {
        let trimmed = line.trim();
        if trimmed.is_empty() {
            continue;
        }
        out.push(trimmed.to_string());
        if out.len() >= max_lines {
            break;
        }
    }
    out.join("\n")
}

#[test]
fn preview_picks_first_non_empty_lines() {
    let s = "\n\nline1\n\n line2 \n\nline3\nline4\n";
    assert_eq!(preview_first_non_empty_lines(s, 3), "line1\nline2\nline3");
}

#[test]
fn preview_edge_cases() {
    assert_eq!(preview_first_non_empty_lines("", 3), "");
    assert_eq!(preview_first_non_empty_lines(" \n\t\n", 3), "");
    assert_eq!(preview_first_non_empty_lines("only", 3), "only");
    assert_eq!(preview_first_non_empty_lines("a\nb", 3), "a\nb");
    assert_eq!(preview_first_non_empty_lines("a\r\nb\r\n", 3), "a\nb");
    assert_eq!(preview_first_non_empty_lines("a\nb\nc\nd", 1), "a");
    // the first kept line is taken even where no line is asked for
    assert_eq!(preview_first_non_empty_lines("a\nb\nc\nd", 0), "a");
    assert_eq!(preview_first_non_empty_lines("\u{3000}全角\u{3000}\n x y \n", 5), "全角\nx y");
}

#[test]
fn preview_agrees_with_lines_and_trim() {
    let pieces = ["", " ", "a", "b c", "\t", "\r", "\n", "\r\n", " d ", "\u{3000}", "e\r"];
    let mut checked: usize = 0;
    for a in pieces {
        for b in pieces {
            for c in pieces {
                for d in pieces {
                    let text = format!("{}\n{}{}\n{}", a, b, c, d);
                    for max in 0..4usize {
                        assert_eq!(
                            preview_first_non_empty_lines(&text, max),
                            lines_and_trim(&text, max),
                            "{:?} {}",
                            text,
                            max
                        );
                        checked += 1;
                    }
                }
            }
        }
    }
    assert_eq!(checked, 11 * 11 * 11 * 11 * 4);
}

#[test]
fn history_plan_validates_in_order() {
    assert_eq!(list_historical_diaries(2, 5, 2021), Ok(None));
    // in an early year nothing is listed, whatever month and day say
    assert_eq!(list_historical_diaries(13, 40, 2021), Ok(None));
    assert_eq!(
        list_historical_diaries(0, 5, 2026),
        Err(DiaryError::InvalidDate(DateError::MonthOutOfRange))
    );
    assert_eq!(
        list_historical_diaries(13, 40, 2026),
        Err(DiaryError::InvalidDate(DateError::MonthOutOfRange))
    );
    assert_eq!(
        list_historical_diaries(12, 32, 2026),
        Err(DiaryError::InvalidDate(DateError::DayOutOfRange))
    );
    assert_eq!(
        list_historical_diaries(2, 5, 2026),
        Ok(Some(HistoryQuery { month: 2, day: 5, min_year: 2022, max_year_exclusive: 2026 }))
    );
    assert_eq!(
        list_historical_diaries(2, 5, 2022),
        Ok(Some(HistoryQuery { month: 2, day: 5, min_year: 2022, max_year_exclusive: 2022 }))
    );
}

#[test]
fn history_item_previews_three_lines() {
    let key = [4u8; 32];
    let request = begin_save(SaveDiaryInput {
        date: "2024-02-05".to_string(),
        content: "\nfirst\n\n second \nthird\nfourth\n".to_string(),
    })
    .unwrap();
    let saved = save_diary_at(&request, &key, 1).unwrap();
    let meta = HistoricalMeta { date: "2024-02-05".to_string(), year: 2024, word_count: 22 };
    let item = historical_diary(&key, meta.clone(), Some(saved.blob.as_str())).unwrap();
    assert_eq!(item.date, "2024-02-05");
    assert_eq!(item.year, 2024);
    assert_eq!(item.word_count, 22);
    assert_eq!(item.preview, "first\nsecond\nthird");

    let missing = historical_diary(&key, meta.clone(), None).unwrap();
    assert_eq!(missing.preview, "");
    assert_eq!(missing.word_count, 22);

    assert_eq!(
        historical_diary(&[5u8; 32], meta, Some(saved.blob.as_str())),
        Err(DiaryError::Crypto(CryptoError::DecryptionFailed))
    );
}

#[test]
fn envelope_is_written_compactly() {
    let payload = EncryptedPayload {
        v: 1,
        nonce_b64: "bm9uY2U=".to_string(),
        ciphertext_b64: "Y2lwaGVy+/==".to_string(),
    };
    let text = render_envelope(&payload).unwrap();
    assert_eq!(text, "{\"v\":1,\"nonce_b64\":\"bm9uY2U=\",\"ciphertext_b64\":\"Y2lwaGVy+/==\"}");
    assert_eq!(parse_envelope(&text), Some(payload));
    let other = EncryptedPayload { v: 255, nonce_b64: String::new(), ciphertext_b64: String::new() };
    assert_eq!(
        render_envelope(&other).unwrap(),
        "{\"v\":255,\"nonce_b64\":\"\",\"ciphertext_b64\":\"\"}"
    );
    assert_eq!(parse_envelope(&render_envelope(&other).unwrap()), Some(other));
    let zero = EncryptedPayload { v: 0, nonce_b64: "a".to_string(), ciphertext_b64: "b".to_string() };
    assert_eq!(parse_envelope(&render_envelope(&zero).unwrap()), Some(zero));
}

#[test]
fn envelope_writer_escapes_nothing() {
    let with = |nonce: &str, sealed: &str| {
        render_envelope(&EncryptedPayload {
            v: 1,
            nonce_b64: nonce.to_string(),
            ciphertext_b64: sealed.to_string(),
        })
    };
    assert_eq!(with("a\"b", "c"), None);
    assert_eq!(with("a", "c\\d"), None);
    assert_eq!(with("a\nb", "c"), None);
    assert_eq!(with("a", "\u{1f}"), None);
    assert!(with("a b", "\u{7f}é密").is_some());
    let text = with("a b", "é密").unwrap();
    assert_eq!(
        parse_envelope(&text),
        Some(EncryptedPayload {
            v: 1,
            nonce_b64: "a b".to_string(),
            ciphertext_b64: "é密".to_string()
        })
    );
}

#[test]
fn envelope_text_is_json_with_the_three_fields() {
    let payload = EncryptedPayload {
        v: 1,
        nonce_b64: "AAAAAAAAAAAAAAAA".to_string(),
        ciphertext_b64: "Uw+K+8dFNrmpY7TxxMtziw==".to_string(),
    };
    let value: serde_json::Value = serde_json::from_str(&render_envelope(&payload).unwrap()).unwrap();
    let object = value.as_object().unwrap();
    assert_eq!(object.len(), 3);
    assert_eq!(object.get("v").and_then(|v| v.as_u64()), Some(1));
    assert_eq!(object.get("nonce_b64").and_then(|v| v.as_str()), Some("AAAAAAAAAAAAAAAA"));
    assert_eq!(
        object.get("ciphertext_b64").and_then(|v| v.as_str()),
        Some("Uw+K+8dFNrmpY7TxxMtziw==")
    );
}

#[test]
fn envelope_reader_takes_blanks_and_any_order() {
    let expected = EncryptedPayload {
        v: 1,
        nonce_b64: "bg==".to_string(),
        ciphertext_b64: "Yw==".to_string(),
    };
    let texts = [
        "{\"v\":1,\"nonce_b64\":\"bg==\",\"ciphertext_b64\":\"Yw==\"}",
        " {\n  \"v\": 1,\n  \"nonce_b64\": \"bg==\",\n  \"ciphertext_b64\": \"Yw==\"\n}\n",
        "{\"ciphertext_b64\":\"Yw==\",\"nonce_b64\":\"bg==\",\"v\":1}",
        "{\"nonce_b64\"\t:\t\"bg==\"\r\n,\"v\" : 1 , \"ciphertext_b64\":\"Yw==\" }",
        "{\"v\":1,\"note\":\"kept\",\"nonce_b64\":\"bg==\",\"size\":12,\"ciphertext_b64\":\"Yw==\"}",
        "{\"note\":\"a\",\"note\":\"b\",\"v\":1,\"nonce_b64\":\"bg==\",\"ciphertext_b64\":\"Yw==\"}",
    ];
    for text in texts {
        assert_eq!(parse_envelope(text), Some(expected.clone()), "{}", text);
    }
}

#[test]
fn envelope_reader_turns_down_what_is_no_envelope() {
    let texts = [
        "",
        " ",
        "{}",
        "[]",
        "null",
        "{\"v\":1}",
        "{\"v\":1,\"nonce_b64\":\"bg==\"}",
        "{\"nonce_b64\":\"bg==\",\"ciphertext_b64\":\"Yw==\"}",
        "{\"v\":1,\"nonce_b64\":\"bg==\",\"ciphertext_b64\":\"Yw==\"",
        "{\"v\":1,\"nonce_b64\":\"bg==\",\"ciphertext_b64\":\"Yw==\"}x",
        "{\"v\":1,\"nonce_b64\":\"bg==\",\"ciphertext_b64\":\"Yw==\"}{}",
        "{\"v\":1,\"nonce_b64\":\"bg==\",\"ciphertext_b64\":\"Yw==\",}",
        "{,\"v\":1,\"nonce_b64\":\"bg==\",\"ciphertext_b64\":\"Yw==\"}",
        "{\"v\":1 \"nonce_b64\":\"bg==\",\"ciphertext_b64\":\"Yw==\"}",
        "{\"v\" 1,\"nonce_b64\":\"bg==\",\"ciphertext_b64\":\"Yw==\"}",
        "{v:1,\"nonce_b64\":\"bg==\",\"ciphertext_b64\":\"Yw==\"}",
        "{\"v\":1,\"v\":1,\"nonce_b64\":\"bg==\",\"ciphertext_b64\":\"Yw==\"}",
        "{\"v\":1,\"nonce_b64\":\"bg==\",\"nonce_b64\":\"bg==\",\"ciphertext_b64\":\"Yw==\"}",
        "{\"v\":\"1\",\"nonce_b64\":\"bg==\",\"ciphertext_b64\":\"Yw==\"}",
        "{\"v\":1,\"nonce_b64\":7,\"ciphertext_b64\":\"Yw==\"}",
        "{\"v\":1,\"nonce_b64\":\"bg==\",\"ciphertext_b64\":7}",
        "{\"v\":256,\"nonce_b64\":\"bg==\",\"ciphertext_b64\":\"Yw==\"}",
        "{\"v\":99999999999999999999999,\"nonce_b64\":\"bg==\",\"ciphertext_b64\":\"Yw==\"}",
        "{\"v\":01,\"nonce_b64\":\"bg==\",\"ciphertext_b64\":\"Yw==\"}",
        "{\"v\":-1,\"nonce_b64\":\"bg==\",\"ciphertext_b64\":\"Yw==\"}",
        "{\"v\":1.0,\"nonce_b64\":\"bg==\",\"ciphertext_b64\":\"Yw==\"}",
        "{\"v\":,\"nonce_b64\":\"bg==\",\"ciphertext_b64\":\"Yw==\"}",
        "{\"v\":1,\"nonce_b64\":\"b\ng==\",\"ciphertext_b64\":\"Yw==\"}",
        "{\"v\":1,\"nonce_b64\":\"bg==,\"ciphertext_b64\":\"Yw==\"}",
        "{\"v\":1,\"nonce_b64\":\"bg==\",\"ciphertext_b64\":\"Yw==}",
    ];
    for text in texts {
        assert_eq!(parse_envelope(text), None, "{}", text);
    }
}

#[test]
fn envelope_reader_keeps_large_versions_apart() {
    let at = |v: &str| {
        parse_envelope(&format!("{{\"v\":{},\"nonce_b64\":\"\",\"ciphertext_b64\":\"\"}}", v))
            .map(|p| p.v)
    };
    assert_eq!(at("0"), Some(0));
    assert_eq!(at("9"), Some(9));
    assert_eq!(at("10"), Some(10));
    assert_eq!(at("255"), Some(255));
    assert_eq!(at("256"), None);
    assert_eq!(at("1000"), None);
    assert_eq!(at("00"), None);
}

#[test]
fn app_state_paths() {
    let state = AppState::new("/home/me/.local/share/trace");
    assert_eq!(state.app_data_dir, "/home/me/.local/share/trace");
    assert_eq!(state.db_path, "/home/me/.local/share/trace/database/trace.db");
    assert_eq!(state.diaries_dir(), "/home/me/.local/share/trace/diaries");
    assert_eq!(state.summaries_dir(), "/home/me/.local/share/trace/summaries");
    let slashed = AppState::new("/data/");
    assert_eq!(slashed.db_path, "/data/database/trace.db");
    assert_eq!(slashed.diaries_dir(), "/data/diaries");
    let empty = AppState::new("");
    assert_eq!(empty.db_path, "database/trace.db");
    assert_eq!(empty.diaries_dir(), "diaries");
    assert_eq!(empty.summaries_dir(), "summaries");
}

#[test]
fn app_state_paths_agree_with_path_join() {
    for base in ["/a/b", "/a/b/", "", "rel", "rel/", "/"] {
        let state = AppState::new(base);
        let joined = std::path::Path::new(base).join("diaries");
        assert_eq!(state.diaries_dir(), joined.to_str().unwrap());
        let db = std::path::Path::new(base).join("database").join("trace.db");
        assert_eq!(state.db_path, db.to_str().unwrap());
    }
}

#[test]
fn upsert_input_holds_what_it_is_given() {
    let row = UpsertDailyInput {
        date: "2026-02-05",
        year: 2026,
        month: 2,
        day: 5,
        filename: "diaries/2026-02-05.md",
        word_count: 1,
        now_ts: "1",
    };
    let copy = row;
    assert_eq!(copy, row);
    assert_eq!(row.filename, "diaries/2026-02-05.md");
}

#[test]
fn upsert_of_a_new_date_stamps_both_times() {
    let input = UpsertDailyInput {
        date: "2026-02-05",
        year: 2026,
        month: 2,
        day: 5,
        filename: "diaries/2026-02-05.md",
        word_count: 12,
        now_ts: "1750000000",
    };
    assert_eq!(
        upsert_row(None, &input),
        DiaryMeta {
            date: "2026-02-05".to_string(),
            year: 2026,
            month: 2,
            day: 5,
            entry_type: "daily".to_string(),
            filename: "diaries/2026-02-05.md".to_string(),
            word_count: 12,
            created_at: "1750000000".to_string(),
            modified_at: "1750000000".to_string(),
        }
    );
}

#[test]
fn upsert_of_an_old_date_keeps_created_at_only() {
    let old = DiaryMeta {
        date: "2026-02-05".to_string(),
        year: 1,
        month: 1,
        day: 1,
        entry_type: "other".to_string(),
        filename: "elsewhere".to_string(),
        word_count: 3,
        created_at: "1700000000".to_string(),
        modified_at: "1700000001".to_string(),
    };
    let input = UpsertDailyInput {
        date: "2026-02-05",
        year: 2026,
        month: 2,
        day: 5,
        filename: "diaries/2026-02-05.md",
        word_count: 12,
        now_ts: "1750000000",
    };
    let row = upsert_row(Some(old), &input);
    assert_eq!(row.created_at, "1700000000");
    assert_eq!(row.modified_at, "1750000000");
    assert_eq!(row.word_count, 12);
    assert_eq!(row.entry_type, "daily");
    assert_eq!(row.filename, "diaries/2026-02-05.md");
    assert_eq!((row.year, row.month, row.day), (2026, 2, 5));
    let again = upsert_row(Some(row.clone()), &input);
    assert_eq!(again, row);
}

#[test]
fn history_listing_keeps_rows_in_order() {
    let key = [4u8; 32];
    let blob_of = |date: &str, content: &str| {
        let request = begin_save(SaveDiaryInput {
            date: date.to_string(),
            content: content.to_string(),
        })
        .unwrap();
        save_diary_at(&request, &key, 1).unwrap().blob
    };
    let meta = |date: &str, year: i32, word_count: i64| HistoricalMeta {
        date: date.to_string(),
        year,
        word_count,
    };
    let rows = vec![
        (meta("2025-02-05", 2025, 5), Some(blob_of("2025-02-05", "fifth\n"))),
        (meta("2024-02-05", 2024, 0), None),
        (meta("2023-02-05", 2023, 9), Some(blob_of("2023-02-05", " a \n\nb\nc\nd"))),
    ];
    let items = historical_diaries(&key, &rows).unwrap();
    assert_eq!(
        items,
        vec![
            HistoricalDiary {
                date: "2025-02-05".to_string(),
                year: 2025,
                preview: "fifth".to_string(),
                word_count: 5
            },
            HistoricalDiary {
                date: "2024-02-05".to_string(),
                year: 2024,
                preview: String::new(),
                word_count: 0
            },
            HistoricalDiary {
                date: "2023-02-05".to_string(),
                year: 2023,
                preview: "a\nb\nc".to_string(),
                word_count: 9
            },
        ]
    );
    assert_eq!(historical_diaries(&key, &Vec::new()), Ok(Vec::new()));
}

#[test]
fn history_listing_fails_with_the_first_blob_that_does_not_open() {
    let key = [4u8; 32];
    let request = begin_save(SaveDiaryInput {
        date: "2025-02-05".to_string(),
        content: "fine".to_string(),
    })
    .unwrap();
    let good = save_diary_at(&request, &key, 1).unwrap().blob;
    let other = save_diary_at(&request, &[5u8; 32], 1).unwrap().blob;
    let meta = HistoricalMeta { date: "2025-02-05".to_string(), year: 2025, word_count: 4 };
    let rows = vec![
        (meta.clone(), Some(good.clone())),
        (meta.clone(), Some("broken".to_string())),
        (meta.clone(), Some(other.clone())),
    ];
    assert_eq!(
        historical_diaries(&key, &rows),
        Err(DiaryError::Crypto(CryptoError::MalformedEnvelope))
    );
    let rows = vec![(meta.clone(), None), (meta.clone(), Some(other)), (meta, Some(good))];
    assert_eq!(
        historical_diaries(&key, &rows),
        Err(DiaryError::Crypto(CryptoError::DecryptionFailed))
    );
}

#[test]
fn blob_filename_takes_the_date_as_it_stands() {
    assert_eq!(blob_filename("2025-06-01"), "diaries/2025-06-01.md");
    assert_eq!(blob_filename(""), "diaries/.md");
    assert_eq!(blob_filename("x y"), "diaries/x y.md");
}
