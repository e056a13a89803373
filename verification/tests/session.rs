use ds4::payload::PayloadError;
use ds4::session::{ProgressEvent, Session, SessionError};
use ds4::types::{SessionRewriteResult, TokenVec, DS4_N_VOCAB};

fn tokens(v: &[i32]) -> TokenVec {
    TokenVec { v: v.to_vec() }
}

fn synced(ctx: u32, v: &[i32]) -> Session {
    let mut s = Session::new(ctx).unwrap();
    s.sync(&tokens(v), &mut Vec::new()).unwrap();
    s
}

#[test]
fn sessions_need_a_context() {
    assert_eq!(Session::new(0).err(), Some(SessionError::ContextNotPositive));
    let s = Session::new(8).unwrap();
    assert_eq!((s.ctx(), s.pos()), (8, 0));
    assert_eq!(s.logits().len(), DS4_N_VOCAB as usize);
}

#[test]
fn prompts_are_synchronised() {
    let mut s = Session::new(8).unwrap();
    let mut p = Vec::new();
    assert_eq!(s.sync(&tokens(&[]), &mut p), Err(SessionError::PromptExceedsContext));
    assert_eq!(s.sync(&tokens(&[0; 8]), &mut p), Err(SessionError::PromptExceedsContext));
    assert!(p.is_empty());
    s.sync(&tokens(&[1, 2]), &mut p).unwrap();
    assert_eq!(p[0].event, ProgressEvent::Prefill);
    assert_eq!((p[0].current, p[0].total), (0, 2));
    p.clear();
    // A longer prompt extends the checkpoint token by token.
    s.sync(&tokens(&[1, 2, 3, 4]), &mut p).unwrap();
    assert_eq!(p.len(), 2);
    assert_eq!(p[1].event, ProgressEvent::Decode);
    assert_eq!((p[1].current, p[1].total), (2, 2));
    assert_eq!(s.tokens().v, vec![1, 2, 3, 4]);
    // Another one starts from scratch.
    p.clear();
    s.sync(&tokens(&[9]), &mut p).unwrap();
    assert_eq!(p[0].event, ProgressEvent::Prefill);
    assert_eq!(s.tokens().v, vec![9]);
}

#[test]
fn rewrites() {
    let mut p = Vec::new();
    let mut s = synced(8, &[1, 2]);
    assert_eq!(
        s.rewrite_from_common(&tokens(&[1, 2, 3]), 2, &mut p),
        Ok(SessionRewriteResult::Rewritten)
    );
    assert_eq!(s.tokens().v, vec![1, 2, 3]);
    assert_eq!(
        s.rewrite_from_common(&tokens(&[1, 7]), 1, &mut p),
        Ok(SessionRewriteResult::RebuildNeeded)
    );
    assert_eq!(s.tokens().v, vec![1, 2, 3]);
    assert_eq!(
        s.rewrite_from_common(&tokens(&[1, 7]), 2, &mut p),
        Err(SessionError::PrefixMismatch)
    );
    assert_eq!(
        s.rewrite_from_common(&tokens(&[1, 7]), 3, &mut p),
        Err(SessionError::InvalidPrefix)
    );
    assert_eq!(
        s.rewrite_from_common(&tokens(&[1, 7]), -1, &mut p),
        Err(SessionError::InvalidPrefix)
    );
    assert_eq!(
        s.rewrite_from_common(&tokens(&[]), 0, &mut p),
        Err(SessionError::PromptExceedsContext)
    );
    s.invalidate();
    assert_eq!(
        s.rewrite_from_common(&tokens(&[1]), 0, &mut p),
        Err(SessionError::NoCheckpoint)
    );
    assert!(Session::rewrite_requires_rebuild(3, 2, 1));
    assert!(!Session::rewrite_requires_rebuild(2, 3, 2));
    assert_eq!(SessionRewriteResult::RebuildNeeded.code(), 1);
}

#[test]
fn tokens_are_chosen() {
    let mut s = Session::new(8).unwrap();
    assert_eq!(s.argmax(), Err(SessionError::NoCheckpoint));
    assert!(s.plan_sample(0, 0, 0, 0).is_err());
    assert!(s.top_tokens(3).is_empty());
    s.sync(&tokens(&[1]), &mut Vec::new()).unwrap();
    s.logits_mut()[5] = 2.0f32.to_bits();
    s.logits_mut()[9] = 1.0f32.to_bits();
    assert_eq!(s.argmax(), Ok(5));
    assert_eq!(s.top_tokens(2), vec![5, 9]);
    assert!(s.top_tokens(0).is_empty());
    s.eval(5);
    assert_eq!(s.tokens().v, vec![1, 5]);
    assert_eq!(s.logits()[5], 0);
}

#[test]
fn payloads_come_back() {
    let mut s = synced(16, &[3, 1, 4, 1, 5]);
    for (i, l) in s.logits_mut().iter_mut().enumerate() {
        *l = (i as f32).sqrt().to_bits();
    }
    s.kv_cache.layers[0].n_raw = 5;
    s.kv_cache.layers[0].raw_kv[7] = 42;
    s.kv_cache.layers[2].n_comp = 1;
    s.kv_cache.layers[2].attn_comp_kv[0] = 77;
    let bytes = s.save_payload().unwrap();
    assert_eq!(bytes.len() as u64, s.payload_bytes());
    assert_eq!(&bytes[..4], b"DSV4");
    let mut t = Session::new(16).unwrap();
    t.load_payload(&bytes, bytes.len() as u64).unwrap();
    assert_eq!(t.tokens().v, s.tokens().v);
    assert_eq!(t.logits(), s.logits());
    assert_eq!(t.kv_cache.layers[2].attn_comp_kv[0], 77);
    assert_eq!(t.kv_cache.layers[2].n_comp, 1);
    assert_eq!(t.save_payload().unwrap(), bytes);
    // A larger context takes it as well.
    let mut t = Session::new(64).unwrap();
    assert!(t.load_payload(&bytes, bytes.len() as u64).is_ok());
}

#[test]
fn bad_payloads() {
    let s = synced(16, &[3, 1, 4]);
    let bytes = s.save_payload().unwrap();
    let load = |data: &[u8], ctx: u32| {
        Session::new(ctx).unwrap().load_payload(data, data.len() as u64).err()
    };
    assert_eq!(load(&bytes[..20], 16), Some(PayloadError::Truncated));
    assert_eq!(load(&bytes[..bytes.len() - 1], 16), Some(PayloadError::Truncated));
    let mut other = bytes.clone();
    other[0] = 0;
    assert_eq!(load(&other, 16), Some(PayloadError::UnsupportedVersion));
    assert_eq!(load(&bytes, 8), Some(PayloadError::DoesNotFit));
    let mut long = bytes.clone();
    long.push(0);
    assert_eq!(load(&long, 16), Some(PayloadError::TrailingBytes));
    let mut layout = bytes.clone();
    layout[20..52].fill(0xee);
    assert!(load(&layout, 16).is_some());
    let invalid = Session::new(16).unwrap();
    assert_eq!(invalid.save_payload().err(), Some(PayloadError::NoCheckpoint));
}
