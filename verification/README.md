# wechatbot

A WeChat bot client for the iLink API, written in Verus.

- `src/` is the verified library: the wire and message types (`types`), the
  parsing of incoming messages (`message`), the splitting of long replies
  (`chunk`), time stamps (`clock`), errors (`error`), and the bot's state with
  the decisions of its login and long-poll loops (`bot`).
- `app/` is the asynchronous bot around it: the loops themselves, the calls to
  the iLink API through an `ILinkClient`, the credentials file, JSON forms of
  the wire types, and the error messages.
- `tests/` exercises the library.
