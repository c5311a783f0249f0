use memebot_backend::meme_query::{Filter, MemeQuery, Order};
use memebot_backend::models::Meme;
use memebot_backend::rating::order_key;
use memebot_backend::ranking::{sort_by_rank, top_by, RankBy};
use memebot_backend::memes_by_heat;
use memebot_backend::cli::print_hot;

fn meme(memeid: i32, heat: f32, score: f32, posted_at: i64) -> Meme {
    Meme {
        memeid,
        authorid: 1,
        image: format!("img{}.png", memeid),
        upvote: 0,
        downvote: 0,
        score: order_key(score.to_bits()),
        heat: order_key(heat.to_bits()),
        last_action: posted_at,
        posted_at,
    }
}

fn sample() -> Vec<Meme> {
    vec![
        meme(1, 3.0, 0.2, 300),
        meme(2, 10.5, 0.9, 100),
        meme(3, -1.0, 0.5, 500),
        meme(4, 7.0, 0.1, 200),
        meme(5, 0.0, 0.7, 400),
    ]
}

fn ids(v: &[Meme]) -> Vec<i32> {
    v.iter().map(|m| m.memeid).collect()
}

#[test]
fn top_by_heat_takes_the_hottest() {
    assert_eq!(ids(&memes_by_heat(sample(), 3)), vec![2, 4, 1]);
    assert_eq!(ids(&memes_by_heat(sample(), 0)), Vec::<i32>::new());
    assert_eq!(ids(&memes_by_heat(sample(), 99)), vec![2, 4, 1, 5, 3]);
}

#[test]
fn top_by_each_key() {
    assert_eq!(ids(&top_by(sample(), RankBy::Score, 5)), vec![2, 5, 3, 1, 4]);
    assert_eq!(ids(&top_by(sample(), RankBy::PostedAt, 2)), vec![3, 5]);
}

#[test]
fn print_hot_lists_at_most_ten() {
    let many: Vec<Meme> = (0..15).map(|i| meme(i, i as f32, 0.0, 0)).collect();
    let hot = print_hot(many);
    assert_eq!(ids(&hot), vec![14, 13, 12, 11, 10, 9, 8, 7, 6, 5]);
    assert_eq!(ids(&print_hot(sample())), vec![2, 4, 1, 5, 3]);
}

#[test]
fn query_builders_keep_the_last_choice() {
    let q = MemeQuery::new();
    assert_eq!(q, MemeQuery { order: Order::Unordered, filter: Filter::All });
    let q = q.by_tag(4).order_date().by_user(9).order_hot();
    assert_eq!(q, MemeQuery { order: Order::Heat, filter: Filter::User(9) });
    let q = q.order_rating().by_tag(2);
    assert_eq!(q, MemeQuery { order: Order::Rating, filter: Filter::Tag(2) });
}

#[test]
fn query_execute_orders_the_loaded_memes() {
    assert_eq!(ids(&MemeQuery::new().execute(sample())), vec![1, 2, 3, 4, 5]);
    assert_eq!(ids(&MemeQuery::new().order_date().execute(sample())), vec![3, 5, 1, 4, 2]);
    assert_eq!(ids(&MemeQuery::new().order_hot().execute(sample())), vec![2, 4, 1, 5, 3]);
    assert_eq!(ids(&MemeQuery::new().order_rating().execute(sample())), vec![2, 5, 3, 1, 4]);
}

#[test]
fn sort_by_rank_is_a_sorted_permutation() {
    let mut seed: u64 = 12345;
    let mut memes = Vec::new();
    for i in 0..300 {
        seed = seed.wrapping_mul(6364136223846793005).wrapping_add(1442695040888963407);
        let heat = ((seed >> 40) % 50) as f32 - 25.0;
        memes.push(meme(i, heat, 0.0, (seed >> 20) as i64 % 1000));
    }
    let mut expected_ids: Vec<i32> = memes.iter().map(|m| m.memeid).collect();
    let sorted = sort_by_rank(memes, RankBy::Heat);
    assert_eq!(sorted.len(), 300);
    for w in sorted.windows(2) {
        assert!(w[0].heat >= w[1].heat);
    }
    let mut got_ids: Vec<i32> = sorted.iter().map(|m| m.memeid).collect();
    expected_ids.sort();
    got_ids.sort();
    assert_eq!(got_ids, expected_ids);
}
