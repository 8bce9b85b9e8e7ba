use profile_generator::download::{chunk_bounds, join_results, WORKERS};
use profile_generator::error::ProfileError;
use profile_generator::profile::{asset_download, asset_downloads};

#[test]
fn ten_items_over_four_workers() {
    assert_eq!(chunk_bounds(10, WORKERS), vec![(0, 3), (3, 6), (6, 9), (9, 10)]);
}

#[test]
fn five_items_over_four_workers() {
    // ceil(5 / 4) = 2 items per worker, so three workers suffice.
    assert_eq!(chunk_bounds(5, 4), vec![(0, 2), (2, 4), (4, 5)]);
}

#[test]
fn fewer_items_than_workers() {
    assert_eq!(chunk_bounds(3, 4), vec![(0, 1), (1, 2), (2, 3)]);
}

#[test]
fn empty_batch_has_no_chunks() {
    assert_eq!(chunk_bounds(0, 4), Vec::<(usize, usize)>::new());
}

#[test]
fn chunks_cover_every_item_once() {
    for k in 0..40usize {
        for n in 1..7usize {
            let chunks = chunk_bounds(k, n);
            let c = (k + n - 1) / n;
            assert!(chunks.len() <= n);
            let mut seen = vec![0u32; k];
            for (a, b) in &chunks {
                assert!(b - a <= c);
                for x in *a..*b {
                    seen[x] += 1;
                }
            }
            assert!(seen.iter().all(|s| *s == 1));
        }
    }
}

#[test]
fn join_all_ok() {
    assert_eq!(join_results(vec![Ok(()), Ok(()), Ok(())]), Ok(()));
    assert_eq!(join_results(vec![]), Ok(()));
}

#[test]
fn join_returns_first_error_in_submission_order() {
    let r = join_results(vec![
        Ok(()),
        Err(ProfileError::Download("b".to_string())),
        Ok(()),
        Err(ProfileError::Download("d".to_string())),
    ]);
    assert_eq!(r, Err(ProfileError::Download("b".to_string())));
}

#[test]
fn one_failure_fails_the_batch() {
    let r = join_results(vec![Ok(()), Ok(()), Err(ProfileError::Download("last".to_string()))]);
    assert!(r.is_err());
}

#[test]
fn asset_object_location() {
    let (url, dir) = asset_download("a1b2c3d4", "static/assets/p/objects").unwrap();
    assert_eq!(url, "https://resources.download.minecraft.net/a1/a1b2c3d4");
    assert_eq!(dir, "static/assets/p/objects/a1");
}

#[test]
fn short_asset_hash_is_refused() {
    assert_eq!(
        asset_download("a", "objs"),
        Err(ProfileError::InvalidAssetHash("a".to_string()))
    );
    let hashes = vec!["ffee".to_string(), "0".to_string()];
    assert!(asset_downloads(&hashes, "objs").is_err());
}

#[test]
fn asset_list_in_order() {
    let hashes = vec!["ffee".to_string(), "0011".to_string()];
    let d = asset_downloads(&hashes, "objs").unwrap();
    assert_eq!(
        d,
        vec![
            ("https://resources.download.minecraft.net/ff/ffee".to_string(), "objs/ff".to_string()),
            ("https://resources.download.minecraft.net/00/0011".to_string(), "objs/00".to_string()),
        ]
    );
}
